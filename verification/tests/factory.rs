use ga_core::config::{Config, ConfigError, PopConfig};
use ga_core::factory::{problem_factory, FactoryError, Problem, ProblemKind};
use ga_core::instance::InstanceError;

const DOCUMENT: &str = "{\"config\": {\"pop_config\": {\"dim\": 4, \"pop_size\": 10, \
    \"pop_type\": \"Binary\", \"bounds\": null}, \"qtd_gen\": 100, \"qtd_runs\": 3, \
    \"generations_to_genocide\": 250, \"elitism\": true, \"selection_method\": \"Roulette\", \
    \"crossover_method\": \"TwoPoints\", \"crossover_chance\": 0.9, \"mutation_chance\": 0.03, \
    \"constraint_penalty\": -1.0, \"kp\": 0.9, \"generation_gap\": 0.6}}";

fn expected_config() -> Config {
    let reference = Config::default();
    Config { pop_config: PopConfig { dim: 4, ..reference.pop_config }, ..reference }
}

#[test]
fn factory_builds_a_usable_evaluator_for_any_letter_case() {
    for name in ["sat-3", "SAT-3", "Sat-3", "sAt-3"] {
        let (problem, config) = problem_factory(name, b"1 2 3\n-1 -2 4\n", DOCUMENT).unwrap();
        assert_eq!(config, expected_config());
        match problem {
            Problem::Sat3(sat) => {
                assert_eq!(*sat.get_config(), expected_config());
                assert_eq!(sat.clause_count(), 2);
                assert_eq!(sat.objective(&[false, false, false, false]), 1);
                assert_eq!(sat.objective(&[true, true, false, false]), 1);
                assert_eq!(sat.objective(&[true, false, false, false]), 2);
            }
            Problem::External(kind) => panic!("expected a 3-SAT problem, found {:?}", kind),
        }
    }
}

#[test]
fn factory_refuses_an_unknown_problem() {
    let outcome = problem_factory("not-a-problem", b"1 2 3\n", DOCUMENT);
    assert_eq!(outcome.err(), Some(FactoryError::UnknownProblem));
    let outcome = problem_factory("", b"1 2 3\n", DOCUMENT);
    assert_eq!(outcome.err(), Some(FactoryError::UnknownProblem));
    let outcome = problem_factory("SAT-3 ", b"1 2 3\n", DOCUMENT);
    assert_eq!(outcome.err(), Some(FactoryError::UnknownProblem));
}

#[test]
fn factory_names_the_other_problems_of_the_closed_set() {
    for (name, kind) in [
        ("radio", ProblemKind::Radio),
        ("RADIO", ProblemKind::Radio),
        ("algebraic-function", ProblemKind::AlgebraicFunction),
        ("Algebraic-Function", ProblemKind::AlgebraicFunction),
        ("nqueens", ProblemKind::NQueens),
        ("NQueens", ProblemKind::NQueens),
    ] {
        let (problem, config) = problem_factory(name, b"any text", DOCUMENT).unwrap();
        assert_eq!(config, expected_config());
        assert!(matches!(problem, Problem::External(k) if k == kind));
    }
}

#[test]
fn factory_hands_on_the_error_of_the_configuration() {
    let outcome = problem_factory("sat-3", b"1 2 3\n", "{\"settings\": {}}");
    assert_eq!(outcome.err(), Some(FactoryError::Config(ConfigError::MissingSection)));
    let outcome = problem_factory("sat-3", b"1 2 3\n", "{");
    assert_eq!(outcome.err(), Some(FactoryError::Config(ConfigError::Malformed)));
    let outcome = problem_factory("sat-3", b"1 2 3\n", "{\"config\": {\"dim\": 4}}");
    assert_eq!(outcome.err(), Some(FactoryError::Config(ConfigError::SchemaViolation)));
}

#[test]
fn configuration_is_loaded_before_the_name_is_resolved() {
    let outcome = problem_factory("not-a-problem", b"x", "{}");
    assert_eq!(outcome.err(), Some(FactoryError::Config(ConfigError::MissingSection)));
}

#[test]
fn factory_refuses_a_malformed_instance() {
    let outcome = problem_factory("sat-3", b"1 2 3\n1 2\n", DOCUMENT);
    assert_eq!(
        outcome.err(),
        Some(FactoryError::InstanceParseError(InstanceError::MalformedLine { line: 1 }))
    );
}

#[test]
fn factory_refuses_a_literal_beyond_the_configured_dimension() {
    let outcome = problem_factory("sat-3", b"1 2 3\n1 2 4\n1 2 5\n", DOCUMENT);
    assert_eq!(
        outcome.err(),
        Some(FactoryError::InstanceParseError(InstanceError::LiteralOutOfDimension { clause: 2 }))
    );
}

#[test]
fn name_is_resolved_before_the_instance_is_read() {
    let outcome = problem_factory("not-a-problem", b"1 2\n", DOCUMENT);
    assert_eq!(outcome.err(), Some(FactoryError::UnknownProblem));
}

#[test]
fn from_name_takes_upper_case_only() {
    assert_eq!(ProblemKind::from_name("SAT-3"), Some(ProblemKind::Sat3));
    assert_eq!(ProblemKind::from_name("RADIO"), Some(ProblemKind::Radio));
    assert_eq!(
        ProblemKind::from_name("ALGEBRAIC-FUNCTION"),
        Some(ProblemKind::AlgebraicFunction)
    );
    assert_eq!(ProblemKind::from_name("NQUEENS"), Some(ProblemKind::NQueens));
    assert_eq!(ProblemKind::from_name("sat-3"), None);
    assert_eq!(ProblemKind::from_name("SAT3"), None);
    assert_eq!(ProblemKind::from_name(""), None);
}

#[test]
fn resolve_takes_any_letter_case() {
    assert_eq!(ProblemKind::resolve("sat-3"), Ok(ProblemKind::Sat3));
    assert_eq!(ProblemKind::resolve("Radio"), Ok(ProblemKind::Radio));
    assert_eq!(ProblemKind::resolve("queens"), Err(FactoryError::UnknownProblem));
}
