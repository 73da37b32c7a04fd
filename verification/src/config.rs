//! The hyperparameter record of one experiment, its reference values and
//! the conditions under which a record is accepted.

use crate::binary64::Binary64;
use vstd::prelude::*;

verus! {

/// How a chromosome encodes its genes.
#[derive(Debug, Copy, Clone, PartialEq, Eq, Structural)]
pub enum PopType {
    Binary,
    Real,
    Integer,
    Permuted,
}

/// How parents are picked.
#[derive(Debug, Copy, Clone, PartialEq, Eq, Structural)]
pub enum SelectionMethod {
    Roulette,
    Tournament,
}

/// How two parents are recombined. `Cycle` and `PartiallyMapped` act on
/// permutations only.
#[derive(Debug, Copy, Clone, PartialEq, Eq, Structural)]
pub enum CrossoverMethod {
    OnePoint,
    TwoPoints,
    Uniform,
    Cycle,
    PartiallyMapped,
}

/// The range of one gene.
#[derive(Debug, Copy, Clone, PartialEq, Eq, Structural)]
pub struct BoundConfig {
    pub upper: Binary64,
    pub lower: Binary64,
}

/// The shape of a population.
#[derive(Debug, Copy, Clone, PartialEq, Eq, Structural)]
pub struct PopConfig {
    pub dim: usize,
    pub pop_size: usize,
    pub pop_type: PopType,
    pub bounds: Option<BoundConfig>,
}

/// The hyperparameters of one experiment.
#[derive(Debug, Copy, Clone, PartialEq, Eq, Structural)]
pub struct Config {
    pub pop_config: PopConfig,
    pub qtd_gen: usize,
    pub qtd_runs: usize,
    pub generations_to_genocide: usize,
    pub elitism: bool,
    pub selection_method: SelectionMethod,
    pub crossover_method: CrossoverMethod,
    pub crossover_chance: Binary64,
    pub mutation_chance: Binary64,
    pub constraint_penalty: Binary64,
    pub kp: Binary64,
    pub generation_gap: Binary64,
}

/// Why a configuration could not be loaded.
#[derive(Debug, Copy, Clone, PartialEq, Eq, Structural)]
pub enum ConfigError {
    /// The document could not be read.
    NotFound,
    /// The text is not a well-formed document.
    Malformed,
    /// The document has no top-level `config` member.
    MissingSection,
    /// The `config` member does not fit the schema, or its values break a
    /// condition of [`Config::is_valid`].
    SchemaViolation,
}

impl PopType {
    /// Real and integer genes range between per-gene bounds, so a population
    /// of either encoding comes with a bounds block.
    pub open spec fn needs_bounds(self) -> bool {
        self == PopType::Real || self == PopType::Integer
    }

    /// Whether this encoding requires a bounds block.
    pub fn requires_bounds(&self) -> (r: bool)
        ensures
            r == self.needs_bounds(),
    {
        match self {
            PopType::Real => true,
            PopType::Integer => true,
            _ => false,
        }
    }
}

impl CrossoverMethod {
    /// Cycle and partially-mapped crossover recombine permutations only.
    pub open spec fn needs_permutation(self) -> bool {
        self == CrossoverMethod::Cycle || self == CrossoverMethod::PartiallyMapped
    }

    /// Whether this method acts on permutations only.
    pub fn permutation_only(&self) -> (r: bool)
        ensures
            r == self.needs_permutation(),
    {
        match self {
            CrossoverMethod::Cycle => true,
            CrossoverMethod::PartiallyMapped => true,
            _ => false,
        }
    }
}

impl PopConfig {
    /// Both sizes are positive, and the bounds are there where the encoding
    /// needs them.
    pub open spec fn is_valid(self) -> bool {
        &&& self.dim > 0
        &&& self.pop_size > 0
        &&& self.pop_type.needs_bounds() ==> self.bounds.is_some()
    }

    /// Checks the conditions of [`PopConfig::is_valid`].
    pub fn validate(&self) -> (r: bool)
        ensures
            r == self.is_valid(),
    {
        self.dim > 0 && self.pop_size > 0 && (!self.pop_type.requires_bounds()
            || self.bounds.is_some())
    }
}

/// The encoding of 0.9.
pub const NINE_TENTHS: u64 = 0x3FEC_CCCC_CCCC_CCCD;

/// The encoding of 0.03.
pub const THREE_HUNDREDTHS: u64 = 0x3F9E_B851_EB85_1EB8;

/// The encoding of -1.0.
pub const MINUS_ONE: u64 = 0xBFF0_0000_0000_0000;

/// The encoding of 0.6.
pub const SIX_TENTHS: u64 = 0x3FE3_3333_3333_3333;

impl Config {
    /// The reference configuration: 100 binary genes, a population of 10,
    /// 100 generations, 3 runs, a reset after 250 stagnant generations,
    /// elitism, roulette selection, two-point crossover with chance 0.9,
    /// mutation chance 0.03, constraint penalty -1.0, scaling constant 0.9
    /// and generation gap 0.6.
    pub open spec fn reference() -> Config {
        Config {
            pop_config: PopConfig {
                dim: 100,
                pop_size: 10,
                pop_type: PopType::Binary,
                bounds: None,
            },
            qtd_gen: 100,
            qtd_runs: 3,
            generations_to_genocide: 250,
            elitism: true,
            selection_method: SelectionMethod::Roulette,
            crossover_method: CrossoverMethod::TwoPoints,
            crossover_chance: Binary64 { bits: NINE_TENTHS },
            mutation_chance: Binary64 { bits: THREE_HUNDREDTHS },
            constraint_penalty: Binary64 { bits: MINUS_ONE },
            kp: Binary64 { bits: NINE_TENTHS },
            generation_gap: Binary64 { bits: SIX_TENTHS },
        }
    }

    /// The population is valid and both chances are probabilities.
    pub open spec fn is_valid(self) -> bool {
        &&& self.pop_config.is_valid()
        &&& self.crossover_chance.in_unit_interval()
        &&& self.mutation_chance.in_unit_interval()
    }

    /// Checks the conditions of [`Config::is_valid`].
    pub fn validate(&self) -> (r: bool)
        ensures
            r == self.is_valid(),
    {
        self.pop_config.validate() && self.crossover_chance.is_probability()
            && self.mutation_chance.is_probability()
    }
}

impl Default for Config {
    fn default() -> (r: Config)
        ensures
            r == Config::reference(),
    {
        Config {
            pop_config: PopConfig {
                dim: 100,
                pop_size: 10,
                pop_type: PopType::Binary,
                bounds: None,
            },
            qtd_gen: 100,
            qtd_runs: 3,
            generations_to_genocide: 250,
            elitism: true,
            selection_method: SelectionMethod::Roulette,
            crossover_method: CrossoverMethod::TwoPoints,
            crossover_chance: Binary64 { bits: NINE_TENTHS },
            mutation_chance: Binary64 { bits: THREE_HUNDREDTHS },
            constraint_penalty: Binary64 { bits: MINUS_ONE },
            kp: Binary64 { bits: NINE_TENTHS },
            generation_gap: Binary64 { bits: SIX_TENTHS },
        }
    }
}

/// The reference configuration is valid.
pub proof fn lemma_reference_is_valid()
    ensures
        Config::reference().is_valid(),
{
    crate::binary64::lemma_unit_interval_by_bits(Config::reference().crossover_chance);
    crate::binary64::lemma_unit_interval_by_bits(Config::reference().mutation_chance);
}

} // verus!
