//! The configuration document: a structured text whose top level holds a
//! member `config` with the fields of a [`Config`].
//!
//! An integer field is a number written as an unsigned integer. A real field
//! is any number. An enumerated field is the name of a variant, as a text.
//! The bounds of a population may be absent or null. Members that the schema
//! does not name are passed over.

use crate::binary64::Binary64;
use crate::config::{
    BoundConfig, Config, ConfigError, CrossoverMethod, PopConfig, PopType, SelectionMethod,
};
use crate::json::{document_tree, lemma_member_at, Json};
use vstd::prelude::*;
use vstd::string::StringExecFns;

verus! {

/// The integer that a value writes, where it fits a `usize`.
pub open spec fn unsigned_of(value: Json) -> Option<usize> {
    match value {
        Json::Number { unsigned: Some(n), .. } => if n <= usize::MAX {
            Some(n as usize)
        } else {
            None
        },
        _ => None,
    }
}

/// The real number that a value writes.
pub open spec fn real_of(value: Json) -> Option<Binary64> {
    match value {
        Json::Number { bits: Some(bits), .. } => Some(Binary64 { bits }),
        _ => None,
    }
}

/// The truth value that a value writes.
pub open spec fn flag_of(value: Json) -> Option<bool> {
    match value {
        Json::Bool(flag) => Some(flag),
        _ => None,
    }
}

/// The encoding with the given name.
pub open spec fn pop_type_named(name: Seq<char>) -> Option<PopType> {
    if name == "Binary"@ {
        Some(PopType::Binary)
    } else if name == "Real"@ {
        Some(PopType::Real)
    } else if name == "Integer"@ {
        Some(PopType::Integer)
    } else if name == "Permuted"@ {
        Some(PopType::Permuted)
    } else {
        None
    }
}

/// The selection method with the given name.
pub open spec fn selection_named(name: Seq<char>) -> Option<SelectionMethod> {
    if name == "Roulette"@ {
        Some(SelectionMethod::Roulette)
    } else if name == "Tournament"@ {
        Some(SelectionMethod::Tournament)
    } else {
        None
    }
}

/// The crossover method with the given name.
pub open spec fn crossover_named(name: Seq<char>) -> Option<CrossoverMethod> {
    if name == "OnePoint"@ {
        Some(CrossoverMethod::OnePoint)
    } else if name == "TwoPoints"@ {
        Some(CrossoverMethod::TwoPoints)
    } else if name == "Uniform"@ {
        Some(CrossoverMethod::Uniform)
    } else if name == "Cycle"@ {
        Some(CrossoverMethod::Cycle)
    } else if name == "PartiallyMapped"@ {
        Some(CrossoverMethod::PartiallyMapped)
    } else {
        None
    }
}

/// The text that a value writes.
pub open spec fn name_of(value: Json) -> Option<Seq<char>> {
    match value {
        Json::Text(text) => Some(text@),
        _ => None,
    }
}

/// The integer field of an object.
pub open spec fn unsigned_field(object: Json, key: Seq<char>) -> Option<usize> {
    match object.member_of(key) {
        Some(value) => unsigned_of(value),
        None => None,
    }
}

/// The real field of an object.
pub open spec fn real_field(object: Json, key: Seq<char>) -> Option<Binary64> {
    match object.member_of(key) {
        Some(value) => real_of(value),
        None => None,
    }
}

/// The truth field of an object.
pub open spec fn flag_field(object: Json, key: Seq<char>) -> Option<bool> {
    match object.member_of(key) {
        Some(value) => flag_of(value),
        None => None,
    }
}

/// The name held by a text field of an object.
pub open spec fn name_field(object: Json, key: Seq<char>) -> Option<Seq<char>> {
    match object.member_of(key) {
        Some(value) => name_of(value),
        None => None,
    }
}

/// The bounds that an object writes.
pub open spec fn bounds_of(value: Json) -> Option<BoundConfig> {
    match (real_field(value, "upper"@), real_field(value, "lower"@)) {
        (Some(upper), Some(lower)) => Some(BoundConfig { upper, lower }),
        _ => None,
    }
}

/// The bounds of a population: none where the member is absent or null,
/// else what the member writes. The outer `None` is a member that writes no
/// bounds.
pub open spec fn bounds_field(object: Json) -> Option<Option<BoundConfig>> {
    match object.member_of("bounds"@) {
        None => Some(None),
        Some(Json::Null) => Some(None),
        Some(value) => match bounds_of(value) {
            Some(bounds) => Some(Some(bounds)),
            None => None,
        },
    }
}

/// The population that an object writes.
pub open spec fn pop_config_of(value: Json) -> Option<PopConfig> {
    match (
        unsigned_field(value, "dim"@),
        unsigned_field(value, "pop_size"@),
        name_field(value, "pop_type"@),
        bounds_field(value),
    ) {
        (Some(dim), Some(pop_size), Some(name), Some(bounds)) => match pop_type_named(name) {
            Some(pop_type) => Some(PopConfig { dim, pop_size, pop_type, bounds }),
            None => None,
        },
        _ => None,
    }
}

/// The population field of a configuration.
pub open spec fn pop_config_field(section: Json) -> Option<PopConfig> {
    match section.member_of("pop_config"@) {
        Some(value) => pop_config_of(value),
        None => None,
    }
}

/// The selection method field of a configuration.
pub open spec fn selection_field(section: Json) -> Option<SelectionMethod> {
    match name_field(section, "selection_method"@) {
        Some(name) => selection_named(name),
        None => None,
    }
}

/// The crossover method field of a configuration.
pub open spec fn crossover_field(section: Json) -> Option<CrossoverMethod> {
    match name_field(section, "crossover_method"@) {
        Some(name) => crossover_named(name),
        None => None,
    }
}

/// The three counts of a configuration: generations, runs and the stagnant
/// generations before a reset.
pub open spec fn counts_of(section: Json) -> Option<(usize, usize, usize)> {
    match (
        unsigned_field(section, "qtd_gen"@),
        unsigned_field(section, "qtd_runs"@),
        unsigned_field(section, "generations_to_genocide"@),
    ) {
        (Some(qtd_gen), Some(qtd_runs), Some(generations_to_genocide)) => Some(
            (qtd_gen, qtd_runs, generations_to_genocide),
        ),
        _ => None,
    }
}

/// The five real numbers of a configuration: the crossover and mutation
/// chances, the constraint penalty, the scaling constant and the generation
/// gap.
pub open spec fn reals_of(section: Json) -> Option<
    (Binary64, Binary64, Binary64, Binary64, Binary64),
> {
    match (
        real_field(section, "crossover_chance"@),
        real_field(section, "mutation_chance"@),
        real_field(section, "constraint_penalty"@),
        real_field(section, "kp"@),
        real_field(section, "generation_gap"@),
    ) {
        (Some(crossover), Some(mutation), Some(penalty), Some(kp), Some(gap)) => Some(
            (crossover, mutation, penalty, kp, gap),
        ),
        _ => None,
    }
}

/// The configuration that the `config` member writes, where every field is
/// there and of its type.
pub open spec fn config_of(section: Json) -> Option<Config> {
    match (
        pop_config_field(section),
        counts_of(section),
        flag_field(section, "elitism"@),
        selection_field(section),
        crossover_field(section),
        reals_of(section),
    ) {
        (
            Some(pop_config),
            Some(counts),
            Some(elitism),
            Some(selection_method),
            Some(crossover_method),
            Some(reals),
        ) => Some(
            Config {
                pop_config,
                qtd_gen: counts.0,
                qtd_runs: counts.1,
                generations_to_genocide: counts.2,
                elitism,
                selection_method,
                crossover_method,
                crossover_chance: reals.0,
                mutation_chance: reals.1,
                constraint_penalty: reals.2,
                kp: reals.3,
                generation_gap: reals.4,
            },
        ),
        _ => None,
    }
}

/// What loading makes of a document: the configuration that its `config`
/// member writes, where that is valid, and else the reason.
pub open spec fn outcome_of(document: Json) -> Result<Config, ConfigError> {
    match document.member_of("config"@) {
        None => Err(ConfigError::MissingSection),
        Some(section) => match config_of(section) {
            None => Err(ConfigError::SchemaViolation),
            Some(config) => if config.is_valid() {
                Ok(config)
            } else {
                Err(ConfigError::SchemaViolation)
            },
        },
    }
}

/// What loading makes of a text.
pub open spec fn load_outcome(text: Seq<char>) -> Result<Config, ConfigError> {
    match document_tree(text) {
        None => Err(ConfigError::Malformed),
        Some(document) => outcome_of(document),
    }
}


/// Whether a text is the given name.
fn is_named(text: &String, name: &str) -> (r: bool)
    ensures
        r == (text@ == name@),
{
    let wanted = String::from_str(name);
    *text == wanted
}

fn read_unsigned(object: &Json, key: &str) -> (r: Option<usize>)
    ensures
        r == unsigned_field(*object, key@),
{
    match object.member(key) {
        Some(Json::Number { unsigned: Some(n), .. }) => {
            if *n <= usize::MAX as u64 {
                Some(*n as usize)
            } else {
                None
            }
        },
        _ => None,
    }
}

fn read_real(object: &Json, key: &str) -> (r: Option<Binary64>)
    ensures
        r == real_field(*object, key@),
{
    match object.member(key) {
        Some(Json::Number { bits: Some(bits), .. }) => Some(Binary64 { bits: *bits }),
        _ => None,
    }
}

fn read_flag(object: &Json, key: &str) -> (r: Option<bool>)
    ensures
        r == flag_field(*object, key@),
{
    match object.member(key) {
        Some(Json::Bool(flag)) => Some(*flag),
        _ => None,
    }
}

fn read_pop_type(object: &Json) -> (r: Option<PopType>)
    ensures
        r == match name_field(*object, "pop_type"@) {
            Some(name) => pop_type_named(name),
            None => None,
        },
{
    match object.member("pop_type") {
        Some(Json::Text(name)) => {
            if is_named(name, "Binary") {
                Some(PopType::Binary)
            } else if is_named(name, "Real") {
                Some(PopType::Real)
            } else if is_named(name, "Integer") {
                Some(PopType::Integer)
            } else if is_named(name, "Permuted") {
                Some(PopType::Permuted)
            } else {
                None
            }
        },
        _ => None,
    }
}

fn read_selection(section: &Json) -> (r: Option<SelectionMethod>)
    ensures
        r == selection_field(*section),
{
    match section.member("selection_method") {
        Some(Json::Text(name)) => {
            if is_named(name, "Roulette") {
                Some(SelectionMethod::Roulette)
            } else if is_named(name, "Tournament") {
                Some(SelectionMethod::Tournament)
            } else {
                None
            }
        },
        _ => None,
    }
}

fn read_crossover(section: &Json) -> (r: Option<CrossoverMethod>)
    ensures
        r == crossover_field(*section),
{
    match section.member("crossover_method") {
        Some(Json::Text(name)) => {
            if is_named(name, "OnePoint") {
                Some(CrossoverMethod::OnePoint)
            } else if is_named(name, "TwoPoints") {
                Some(CrossoverMethod::TwoPoints)
            } else if is_named(name, "Uniform") {
                Some(CrossoverMethod::Uniform)
            } else if is_named(name, "Cycle") {
                Some(CrossoverMethod::Cycle)
            } else if is_named(name, "PartiallyMapped") {
                Some(CrossoverMethod::PartiallyMapped)
            } else {
                None
            }
        },
        _ => None,
    }
}

fn read_bounds(object: &Json) -> (r: Option<Option<BoundConfig>>)
    ensures
        r == bounds_field(*object),
{
    match object.member("bounds") {
        None => Some(None),
        Some(Json::Null) => Some(None),
        Some(value) => {
            let upper = read_real(value, "upper");
            let lower = read_real(value, "lower");
            match (upper, lower) {
                (Some(upper), Some(lower)) => Some(Some(BoundConfig { upper, lower })),
                _ => None,
            }
        },
    }
}

fn read_pop_config(section: &Json) -> (r: Option<PopConfig>)
    ensures
        r == pop_config_field(*section),
{
    match section.member("pop_config") {
        Some(value) => {
            let dim = read_unsigned(value, "dim");
            let pop_size = read_unsigned(value, "pop_size");
            let pop_type = read_pop_type(value);
            let bounds = read_bounds(value);
            match (dim, pop_size, pop_type, bounds) {
                (Some(dim), Some(pop_size), Some(pop_type), Some(bounds)) => Some(
                    PopConfig { dim, pop_size, pop_type, bounds },
                ),
                _ => None,
            }
        },
        None => None,
    }
}

fn read_counts(section: &Json) -> (r: Option<(usize, usize, usize)>)
    ensures
        r == counts_of(*section),
{
    let qtd_gen = read_unsigned(section, "qtd_gen");
    let qtd_runs = read_unsigned(section, "qtd_runs");
    let generations_to_genocide = read_unsigned(section, "generations_to_genocide");
    match (qtd_gen, qtd_runs, generations_to_genocide) {
        (Some(qtd_gen), Some(qtd_runs), Some(generations_to_genocide)) => Some(
            (qtd_gen, qtd_runs, generations_to_genocide),
        ),
        _ => None,
    }
}

fn read_reals(section: &Json) -> (r: Option<(Binary64, Binary64, Binary64, Binary64, Binary64)>)
    ensures
        r == reals_of(*section),
{
    let crossover = read_real(section, "crossover_chance");
    let mutation = read_real(section, "mutation_chance");
    let penalty = read_real(section, "constraint_penalty");
    let kp = read_real(section, "kp");
    let gap = read_real(section, "generation_gap");
    match (crossover, mutation, penalty, kp, gap) {
        (Some(crossover), Some(mutation), Some(penalty), Some(kp), Some(gap)) => Some(
            (crossover, mutation, penalty, kp, gap),
        ),
        _ => None,
    }
}

/// Decodes the `config` member of a document against the schema.
fn read_config(section: &Json) -> (r: Option<Config>)
    ensures
        r == config_of(*section),
{
    let pop_config = read_pop_config(section);
    let counts = read_counts(section);
    let elitism = read_flag(section, "elitism");
    let selection_method = read_selection(section);
    let crossover_method = read_crossover(section);
    let reals = read_reals(section);
    match (pop_config, counts, elitism, selection_method, crossover_method, reals) {
        (
            Some(pop_config),
            Some(counts),
            Some(elitism),
            Some(selection_method),
            Some(crossover_method),
            Some(reals),
        ) => Some(
            Config {
                pop_config,
                qtd_gen: counts.0,
                qtd_runs: counts.1,
                generations_to_genocide: counts.2,
                elitism,
                selection_method,
                crossover_method,
                crossover_chance: reals.0,
                mutation_chance: reals.1,
                constraint_penalty: reals.2,
                kp: reals.3,
                generation_gap: reals.4,
            },
        ),
        _ => None,
    }
}

impl Config {
    /// Loads the configuration from a document that is already a tree.
    ///
    /// Fails with `MissingSection` where the document has no top-level
    /// `config` member, and with `SchemaViolation` where that member does not
    /// fit the schema or writes a configuration that is not valid.
    pub fn from_json(document: &Json) -> (r: Result<Config, ConfigError>)
        ensures
            r == outcome_of(*document),
    {
        match document.member("config") {
            None => Err(ConfigError::MissingSection),
            Some(section) => match read_config(section) {
                None => Err(ConfigError::SchemaViolation),
                Some(config) => {
                    if config.validate() {
                        Ok(config)
                    } else {
                        Err(ConfigError::SchemaViolation)
                    }
                },
            },
        }
    }

    /// Loads the configuration from the text of a document.
    ///
    /// Fails with `Malformed` where the text is not a well-formed document,
    /// and else as [`Config::from_json`] does.
    pub fn new(document: &str) -> (r: Result<Config, ConfigError>)
        ensures
            r == load_outcome(document@),
    {
        match Json::parse(document) {
            None => Err(ConfigError::Malformed),
            Some(tree) => Config::from_json(&tree),
        }
    }
}

fn count_value(n: usize) -> (r: Json)
    ensures
        unsigned_of(r) == Some(n),
{
    Json::Number { unsigned: Some(n as u64), bits: None }
}

fn real_value(x: Binary64) -> (r: Json)
    ensures
        real_of(r) == Some(x),
{
    Json::Number { unsigned: None, bits: Some(x.bits) }
}

fn name_value(name: &str) -> (r: Json)
    ensures
        name_of(r) == Some(name@),
{
    Json::Text(String::from_str(name))
}

fn pop_type_name(pop_type: PopType) -> (r: &'static str)
    ensures
        pop_type_named(r@) == Some(pop_type),
{
    proof {
        reveal_strlit("Binary");
        reveal_strlit("Real");
        reveal_strlit("Integer");
        reveal_strlit("Permuted");
        // Two names differ in their lengths, or in one character.
        assert("Binary"@.len() == 6);
        assert("Real"@.len() == 4);
        assert("Integer"@.len() == 7);
        assert("Permuted"@.len() == 8);
    }
    match pop_type {
        PopType::Binary => "Binary",
        PopType::Real => "Real",
        PopType::Integer => "Integer",
        PopType::Permuted => "Permuted",
    }
}

fn selection_name(method: SelectionMethod) -> (r: &'static str)
    ensures
        selection_named(r@) == Some(method),
{
    proof {
        reveal_strlit("Roulette");
        reveal_strlit("Tournament");
        // Two names differ in their lengths, or in one character.
        assert("Roulette"@.len() == 8);
        assert("Tournament"@.len() == 10);
    }
    match method {
        SelectionMethod::Roulette => "Roulette",
        SelectionMethod::Tournament => "Tournament",
    }
}

fn crossover_name(method: CrossoverMethod) -> (r: &'static str)
    ensures
        crossover_named(r@) == Some(method),
{
    proof {
        reveal_strlit("OnePoint");
        reveal_strlit("TwoPoints");
        reveal_strlit("Uniform");
        reveal_strlit("Cycle");
        reveal_strlit("PartiallyMapped");
        // Two names differ in their lengths, or in one character.
        assert("OnePoint"@.len() == 8);
        assert("TwoPoints"@.len() == 9);
        assert("Uniform"@.len() == 7);
        assert("Cycle"@.len() == 5);
        assert("PartiallyMapped"@.len() == 15);
    }
    match method {
        CrossoverMethod::OnePoint => "OnePoint",
        CrossoverMethod::TwoPoints => "TwoPoints",
        CrossoverMethod::Uniform => "Uniform",
        CrossoverMethod::Cycle => "Cycle",
        CrossoverMethod::PartiallyMapped => "PartiallyMapped",
    }
}

fn bounds_value(bounds: Option<BoundConfig>) -> (r: Json)
    ensures
        bounds matches Some(b) ==> !(r is Null) && bounds_of(r) == Some(b),
        bounds is None ==> r is Null,
{
    match bounds {
        None => Json::Null,
        Some(b) => {
            let mut members: Vec<(String, Json)> = Vec::new();
            members.push((String::from_str("upper"), real_value(b.upper)));
            members.push((String::from_str("lower"), real_value(b.lower)));
            proof {
                reveal_strlit("upper");
                reveal_strlit("lower");
                // Two names differ in their lengths, or in one character.
                assert("upper"@.len() == 5);
                assert("lower"@.len() == 5);
                assert("upper"@[0] == 'u');
                assert("lower"@[0] == 'l');
                lemma_member_at(members@, "upper"@, 0);
                lemma_member_at(members@, "lower"@, 1);
            }
            Json::Object(members)
        },
    }
}

fn pop_config_value(pop_config: PopConfig) -> (r: Json)
    ensures
        pop_config_of(r) == Some(pop_config),
{
    let mut members: Vec<(String, Json)> = Vec::new();
    members.push((String::from_str("dim"), count_value(pop_config.dim)));
    members.push((String::from_str("pop_size"), count_value(pop_config.pop_size)));
    members.push((String::from_str("pop_type"), name_value(pop_type_name(pop_config.pop_type))));
    members.push((String::from_str("bounds"), bounds_value(pop_config.bounds)));
    proof {
        reveal_strlit("dim");
        reveal_strlit("pop_size");
        reveal_strlit("pop_type");
        reveal_strlit("bounds");
        // Two names differ in their lengths, or in one character.
        assert("dim"@.len() == 3);
        assert("pop_size"@.len() == 8);
        assert("pop_type"@.len() == 8);
        assert("bounds"@.len() == 6);
        assert("pop_size"@[4] == 's');
        assert("pop_type"@[4] == 't');
        lemma_member_at(members@, "dim"@, 0);
        lemma_member_at(members@, "pop_size"@, 1);
        lemma_member_at(members@, "pop_type"@, 2);
        lemma_member_at(members@, "bounds"@, 3);
    }
    Json::Object(members)
}

impl Config {
    /// Writes the configuration as a document: an object whose one member,
    /// `config`, holds every field under its name.
    ///
    /// Loading the document gives the configuration back, where it is valid.
    pub fn to_json(&self) -> (document: Json)
        ensures
            document.member_of("config"@) matches Some(section) && config_of(section) == Some(
                *self,
            ),
            outcome_of(document) == if self.is_valid() {
                Ok::<Config, ConfigError>(*self)
            } else {
                Err(ConfigError::SchemaViolation)
            },
    {
        let mut members: Vec<(String, Json)> = Vec::new();
        members.push((String::from_str("pop_config"), pop_config_value(self.pop_config)));
        members.push((String::from_str("qtd_gen"), count_value(self.qtd_gen)));
        members.push((String::from_str("qtd_runs"), count_value(self.qtd_runs)));
        members.push(
            (String::from_str("generations_to_genocide"), count_value(self.generations_to_genocide)),
        );
        members.push((String::from_str("elitism"), Json::Bool(self.elitism)));
        members.push(
            (String::from_str("selection_method"), name_value(selection_name(self.selection_method))),
        );
        members.push(
            (String::from_str("crossover_method"), name_value(crossover_name(self.crossover_method))),
        );
        members.push((String::from_str("crossover_chance"), real_value(self.crossover_chance)));
        members.push((String::from_str("mutation_chance"), real_value(self.mutation_chance)));
        members.push((String::from_str("constraint_penalty"), real_value(self.constraint_penalty)));
        members.push((String::from_str("kp"), real_value(self.kp)));
        members.push((String::from_str("generation_gap"), real_value(self.generation_gap)));
        proof {
            reveal_strlit("pop_config");
            reveal_strlit("qtd_gen");
            reveal_strlit("qtd_runs");
            reveal_strlit("generations_to_genocide");
            reveal_strlit("elitism");
            reveal_strlit("selection_method");
            reveal_strlit("crossover_method");
            reveal_strlit("crossover_chance");
            reveal_strlit("mutation_chance");
            reveal_strlit("constraint_penalty");
            reveal_strlit("kp");
            reveal_strlit("generation_gap");
            // Two names differ in their lengths, or in one character.
            assert("pop_config"@.len() == 10);
            assert("qtd_gen"@.len() == 7);
            assert("qtd_runs"@.len() == 8);
            assert("generations_to_genocide"@.len() == 23);
            assert("elitism"@.len() == 7);
            assert("selection_method"@.len() == 16);
            assert("crossover_method"@.len() == 16);
            assert("crossover_chance"@.len() == 16);
            assert("mutation_chance"@.len() == 15);
            assert("constraint_penalty"@.len() == 18);
            assert("kp"@.len() == 2);
            assert("generation_gap"@.len() == 14);
            assert("qtd_gen"@[0] == 'q');
            assert("elitism"@[0] == 'e');
            assert("selection_method"@[0] == 's');
            assert("crossover_method"@[0] == 'c');
            assert("crossover_chance"@[0] == 'c');
            assert("crossover_method"@[10] == 'm');
            assert("crossover_chance"@[10] == 'c');
            lemma_member_at(members@, "pop_config"@, 0);
            lemma_member_at(members@, "qtd_gen"@, 1);
            lemma_member_at(members@, "qtd_runs"@, 2);
            lemma_member_at(members@, "generations_to_genocide"@, 3);
            lemma_member_at(members@, "elitism"@, 4);
            lemma_member_at(members@, "selection_method"@, 5);
            lemma_member_at(members@, "crossover_method"@, 6);
            lemma_member_at(members@, "crossover_chance"@, 7);
            lemma_member_at(members@, "mutation_chance"@, 8);
            lemma_member_at(members@, "constraint_penalty"@, 9);
            lemma_member_at(members@, "kp"@, 10);
            lemma_member_at(members@, "generation_gap"@, 11);
        }
        let section = Json::Object(members);
        let mut top: Vec<(String, Json)> = Vec::new();
        top.push((String::from_str("config"), section));
        proof {
            lemma_member_at(top@, "config"@, 0);
        }
        Json::Object(top)
    }
}

/// A document without a top-level `config` member is refused as such,
/// whatever else it holds: no configuration comes of it.
pub proof fn lemma_missing_section(document: Json)
    requires
        document.member_of("config"@).is_none(),
    ensures
        outcome_of(document) == Err::<Config, ConfigError>(ConfigError::MissingSection),
{
}

/// A text that is a document without a top-level `config` member loads to
/// the missing-section error.
pub proof fn lemma_missing_section_of_text(text: Seq<char>)
    requires
        document_tree(text) matches Some(document) && document.member_of("config"@).is_none(),
    ensures
        load_outcome(text) == Err::<Config, ConfigError>(ConfigError::MissingSection),
{
}

/// Loading a text never fails for want of a file: reading the file is the
/// caller's part, and `NotFound` the caller's to report.
pub proof fn lemma_load_never_misses_a_file(text: Seq<char>)
    ensures
        load_outcome(text) != Err::<Config, ConfigError>(ConfigError::NotFound),
{
}

/// Loading never gives a configuration that is not valid.
pub proof fn lemma_loaded_is_valid(document: Json)
    ensures
        outcome_of(document) matches Ok(config) ==> config.is_valid(),
{
}

} // verus!
