//! Categorical distributions over the symbol categories that an interaction
//! generator chooses from.
//!
//! Weights are fixed-point: a weight of `WEIGHT_ONE` stands for probability 1.
use vstd::prelude::*;

verus! {

/// Number of symbol categories a profile assigns a weight to.
pub const CATEGORY_COUNT: usize = 13;

/// The fixed-point weight that stands for probability 1 (weights are counted in billionths).
pub const WEIGHT_ONE: u32 = 1_000_000_000;

/// How far the sum of the weights may stray from `WEIGHT_ONE` (about one single-precision epsilon).
pub const WEIGHT_TOLERANCE: u32 = 119;

pub const CAT_EMPTY: usize = 0;
pub const CAT_ACTION: usize = 1;
pub const CAT_STRICT: usize = 2;
pub const CAT_SEQUENCE: usize = 3;
pub const CAT_COREGION: usize = 4;
pub const CAT_PARALLEL: usize = 5;
pub const CAT_LOOP_STRICT: usize = 6;
pub const CAT_LOOP_WEAK: usize = 7;
pub const CAT_LOOP_INTERLEAVED: usize = 8;
pub const CAT_ALTERNATIVE: usize = 9;
pub const CAT_LEAF: usize = 10;
pub const CAT_TRANSMISSION: usize = 11;
pub const CAT_BROADCAST: usize = 12;

/// Sum of a sequence of weights.
pub open spec fn weight_sum(w: Seq<u32>) -> int
    decreases w.len(),
{
    if w.len() == 0 {
        0
    } else {
        weight_sum(w.drop_last()) + w.last()
    }
}

/// One weight per category, each in `[0, WEIGHT_ONE]`, summing to `WEIGHT_ONE`
/// within `WEIGHT_TOLERANCE`.
pub open spec fn is_distribution(w: Seq<u32>) -> bool {
    &&& w.len() == CATEGORY_COUNT
    &&& forall|i: int| 0 <= i < w.len() ==> w[i] <= WEIGHT_ONE
    &&& WEIGHT_ONE - WEIGHT_TOLERANCE <= weight_sum(w) <= WEIGHT_ONE + WEIGHT_TOLERANCE
}

/// Weights of the `default` preset.
pub open spec fn default_weights() -> Seq<u32> {
    seq![
        50_000_000, 300_000_000, 50_000_000, 150_000_000, 50_000_000, 100_000_000, 50_000_000,
        50_000_000, 50_000_000, 100_000_000, 0, 25_000_000, 25_000_000,
    ]
}

/// Weights of the `conservative` preset: no parallel composition, no interleaved loop.
pub open spec fn conservative_weights() -> Seq<u32> {
    seq![
        100_000_000, 400_000_000, 50_000_000, 200_000_000, 0, 0, 50_000_000,
        50_000_000, 0, 100_000_000, 0, 25_000_000, 25_000_000,
    ]
}

/// Weights of the `protocols_with_coreg` preset: as `conservative`, with co-regions.
pub open spec fn protocols_with_coreg_weights() -> Seq<u32> {
    seq![
        50_000_000, 300_000_000, 50_000_000, 250_000_000, 100_000_000, 0, 50_000_000,
        50_000_000, 0, 100_000_000, 0, 25_000_000, 25_000_000,
    ]
}

/// The weights of the preset called `name`, if there is one.
pub open spec fn preset_weights(name: Seq<char>) -> Option<Seq<u32>> {
    if name == "default"@ {
        Some(default_weights())
    } else if name == "conservative"@ {
        Some(conservative_weights())
    } else if name == "protocols_with_coreg"@ {
        Some(protocols_with_coreg_weights())
    } else {
        None
    }
}

/// The presets' weights are distributions.
pub proof fn lemma_presets_are_distributions()
    ensures
        is_distribution(default_weights()),
        is_distribution(conservative_weights()),
        is_distribution(protocols_with_coreg_weights()),
{
    reveal_with_fuel(weight_sum, 14);
}

/// Summing one more weight adds it to the sum.
proof fn lemma_weight_sum_prefix(w: Seq<u32>, i: int)
    requires
        0 <= i < w.len(),
    ensures
        weight_sum(w.subrange(0, i + 1)) == weight_sum(w.subrange(0, i)) + w[i],
{
    assert(w.subrange(0, i + 1).drop_last() =~= w.subrange(0, i));
}

/// Why a profile could not be built.
#[derive(Debug)]
pub enum ProfileError {
    /// No preset has this name.
    UnknownPreset(String),
    /// The weights are not one per category, each in range, summing to one.
    InvalidDistribution,
}

/// A validated categorical distribution over the symbol categories.
#[derive(Debug)]
pub struct ProbabilityProfile {
    weights: Vec<u32>,
}

impl View for ProbabilityProfile {
    type V = Seq<u32>;

    closed spec fn view(&self) -> Seq<u32> {
        self.weights@
    }
}

/// Whether two strings hold the same characters.
fn same_text(a: &str, b: &str) -> (r: bool)
    ensures
        r == (a@ == b@),
{
    a.to_owned() == b.to_owned()
}

impl Clone for ProbabilityProfile {
    fn clone(&self) -> (r: Self)
        ensures
            r@ == self@,
    {
        proof {
            use_type_invariant(self);
        }
        ProbabilityProfile { weights: self.weights.clone() }
    }
}

impl ProbabilityProfile {
    #[verifier::type_invariant]
    closed spec fn inv(self) -> bool {
        is_distribution(self.weights@)
    }

    /// Builds a profile from one weight per category; fails with
    /// `InvalidDistribution` exactly when the weights are not a distribution.
    pub fn from_explicit(values: Vec<u32>) -> (r: Result<ProbabilityProfile, ProfileError>)
        ensures
            r.is_ok() <==> is_distribution(values@),
            r matches Ok(p) ==> p@ == values@,
            r matches Err(e) ==> e matches ProfileError::InvalidDistribution,
    {
        if values.len() != CATEGORY_COUNT {
            return Err(ProfileError::InvalidDistribution);
        }
        let mut total: u64 = 0;
        let mut i: usize = 0;
        while i < values.len()
            invariant
                0 <= i <= values.len(),
                values.len() == CATEGORY_COUNT,
                total == weight_sum(values@.subrange(0, i as int)),
                total <= i * WEIGHT_ONE,
                forall|j: int| 0 <= j < i ==> values@[j] <= WEIGHT_ONE,
            decreases values.len() - i,
        {
            if values[i] > WEIGHT_ONE {
                return Err(ProfileError::InvalidDistribution);
            }
            proof {
                lemma_weight_sum_prefix(values@, i as int);
            }
            total = total + values[i] as u64;
            i = i + 1;
        }
        assert(values@.subrange(0, CATEGORY_COUNT as int) =~= values@);
        if total < (WEIGHT_ONE - WEIGHT_TOLERANCE) as u64 || total > (WEIGHT_ONE + WEIGHT_TOLERANCE) as u64 {
            return Err(ProfileError::InvalidDistribution);
        }
        Ok(ProbabilityProfile { weights: values })
    }

    /// Builds the preset called `name` (`default`, `conservative` or
    /// `protocols_with_coreg`); fails with `UnknownPreset(name)` for any other name.
    pub fn from_preset(name: &str) -> (r: Result<ProbabilityProfile, ProfileError>)
        ensures
            r.is_ok() <==> preset_weights(name@) is Some,
            r matches Ok(p) ==> preset_weights(name@) == Some(p@),
            r matches Err(e) ==> (e matches ProfileError::UnknownPreset(n) && n@ == name@),
    {
        proof {
            lemma_presets_are_distributions();
        }
        if same_text(name, "default") {
            let weights = vec![
                50_000_000, 300_000_000, 50_000_000, 150_000_000, 50_000_000, 100_000_000,
                50_000_000, 50_000_000, 50_000_000, 100_000_000, 0, 25_000_000, 25_000_000,
            ];
            assert(weights@ =~= default_weights());
            Ok(ProbabilityProfile { weights })
        } else if same_text(name, "conservative") {
            let weights = vec![
                100_000_000, 400_000_000, 50_000_000, 200_000_000, 0, 0, 50_000_000,
                50_000_000, 0, 100_000_000, 0, 25_000_000, 25_000_000,
            ];
            assert(weights@ =~= conservative_weights());
            Ok(ProbabilityProfile { weights })
        } else if same_text(name, "protocols_with_coreg") {
            let weights = vec![
                50_000_000, 300_000_000, 50_000_000, 250_000_000, 100_000_000, 0, 50_000_000,
                50_000_000, 0, 100_000_000, 0, 25_000_000, 25_000_000,
            ];
            assert(weights@ =~= protocols_with_coreg_weights());
            Ok(ProbabilityProfile { weights })
        } else {
            Err(ProfileError::UnknownPreset(name.to_owned()))
        }
    }

    /// Builds the profile selected by `name`: `custom` takes `custom_values`
    /// as explicit weights, any other name is a preset.
    pub fn select(name: &str, custom_values: Vec<u32>) -> (r: Result<ProbabilityProfile, ProfileError>)
        ensures
            name@ == "custom"@ ==> r.is_ok() == is_distribution(custom_values@),
            name@ == "custom"@ ==> (r matches Ok(p) ==> p@ == custom_values@),
            name@ == "custom"@ ==> (r matches Err(e) ==> e matches ProfileError::InvalidDistribution),
            name@ != "custom"@ ==> r.is_ok() == preset_weights(name@) is Some,
            name@ != "custom"@ ==> (r matches Ok(p) ==> preset_weights(name@) == Some(p@)),
            name@ != "custom"@ ==> (r matches Err(e) ==> (e matches ProfileError::UnknownPreset(n) && n@ == name@)),
    {
        if same_text(name, "custom") {
            Self::from_explicit(custom_values)
        } else {
            Self::from_preset(name)
        }
    }

    /// The weight of one category.
    pub fn weight(&self, category: usize) -> (r: u32)
        requires
            category < CATEGORY_COUNT,
        ensures
            r == self@[category as int],
            r <= WEIGHT_ONE,
    {
        proof {
            use_type_invariant(self);
        }
        self.weights[category]
    }

    /// The weights, one per category, in category order.
    pub fn weights(&self) -> (r: Vec<u32>)
        ensures
            r@ == self@,
            is_distribution(r@),
    {
        proof {
            use_type_invariant(self);
        }
        self.weights.clone()
    }
}

} // verus!
