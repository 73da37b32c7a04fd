//! The problem factory: from the name of a problem, the text of its instance
//! and its configuration document to a problem that can be evaluated.

use crate::config::{Config, ConfigError};
use crate::instance::InstanceError;
use crate::sat3::{is_loaded_from, SAT3};
use crate::schema::load_outcome;
use vstd::prelude::*;
use vstd::string::StringExecFns;

verus! {

/// The problems that the factory knows.
#[derive(Debug, Copy, Clone, PartialEq, Eq, Structural)]
pub enum ProblemKind {
    Sat3,
    Radio,
    AlgebraicFunction,
    NQueens,
}

/// Why the factory built nothing.
#[derive(Debug, Copy, Clone, PartialEq, Eq, Structural)]
pub enum FactoryError {
    /// The name is that of no known problem.
    UnknownProblem,
    /// The instance is malformed for the problem.
    InstanceParseError(InstanceError),
    /// The configuration could not be loaded.
    Config(ConfigError),
}

/// What the factory builds.
pub enum Problem {
    /// A 3-SAT problem, ready to evaluate candidates.
    Sat3(SAT3),
    /// A known problem whose evaluator is kept elsewhere: the caller hands
    /// the instance and the configuration on to it.
    External(ProblemKind),
}

/// What `str::to_uppercase` makes of a name.
pub uninterp spec fn uppercase(name: Seq<char>) -> Seq<char>;

/// Calls `str::to_uppercase`, which maps each character to its upper case.
/// The result depends on the name alone: it is what [`uppercase`] names.
#[verifier::external_body]
fn to_uppercase(name: &str) -> (r: String)
    ensures
        r@ == uppercase(name@),
{
    name.to_uppercase()
}

/// The problem with the given name, written in upper case.
pub open spec fn kind_named(name: Seq<char>) -> Option<ProblemKind> {
    if name == "SAT-3"@ {
        Some(ProblemKind::Sat3)
    } else if name == "RADIO"@ {
        Some(ProblemKind::Radio)
    } else if name == "ALGEBRAIC-FUNCTION"@ {
        Some(ProblemKind::AlgebraicFunction)
    } else if name == "NQUEENS"@ {
        Some(ProblemKind::NQueens)
    } else {
        None
    }
}

/// What the factory makes of a name, an instance text and a configuration
/// document. The configuration is loaded first, then the name is resolved,
/// then the instance is read.
pub open spec fn is_factory_outcome(
    outcome: Result<(Problem, Config), FactoryError>,
    problem: Seq<char>,
    instance: Seq<u8>,
    config_document: Seq<char>,
) -> bool {
    match load_outcome(config_document) {
        Err(e) => outcome == Err::<(Problem, Config), FactoryError>(FactoryError::Config(e)),
        Ok(config) => match kind_named(uppercase(problem)) {
            None => outcome == Err::<(Problem, Config), FactoryError>(FactoryError::UnknownProblem),
            Some(ProblemKind::Sat3) => match outcome {
                Ok((Problem::Sat3(sat), shared)) => shared == config && is_loaded_from(
                    Ok(sat),
                    instance,
                    config,
                ),
                Err(FactoryError::InstanceParseError(e)) => is_loaded_from(
                    Err(e),
                    instance,
                    config,
                ),
                _ => false,
            },
            Some(kind) => outcome matches Ok((Problem::External(named), shared)) && named == kind
                && shared == config,
        },
    }
}

impl ProblemKind {
    /// Resolves a name that is already in upper case.
    pub fn from_name(name: &str) -> (r: Option<ProblemKind>)
        ensures
            r == kind_named(name@),
    {
        let name = String::from_str(name);
        if name == String::from_str("SAT-3") {
            Some(ProblemKind::Sat3)
        } else if name == String::from_str("RADIO") {
            Some(ProblemKind::Radio)
        } else if name == String::from_str("ALGEBRAIC-FUNCTION") {
            Some(ProblemKind::AlgebraicFunction)
        } else if name == String::from_str("NQUEENS") {
            Some(ProblemKind::NQueens)
        } else {
            None
        }
    }

    /// Resolves a name in any letter case.
    pub fn resolve(name: &str) -> (r: Result<ProblemKind, FactoryError>)
        ensures
            r == match kind_named(uppercase(name@)) {
                Some(kind) => Ok::<ProblemKind, FactoryError>(kind),
                None => Err(FactoryError::UnknownProblem),
            },
    {
        let upper = to_uppercase(name);
        match ProblemKind::from_name(upper.as_str()) {
            Some(kind) => Ok(kind),
            None => Err(FactoryError::UnknownProblem),
        }
    }
}

/// Builds the problem with the given name from the text of its instance,
/// and loads the configuration that it shares with the run.
///
/// The configuration is loaded first and its error handed on. A name that is
/// not, in any letter case, one of `SAT-3`, `RADIO`, `ALGEBRAIC-FUNCTION`
/// and `NQUEENS` is an unknown problem. A 3-SAT instance is read and held
/// against the configured dimension.
pub fn problem_factory(problem: &str, instance: &[u8], config_document: &str) -> (r: Result<
    (Problem, Config),
    FactoryError,
>)
    ensures
        is_factory_outcome(r, problem@, instance@, config_document@),
{
    let config = match Config::new(config_document) {
        Ok(config) => config,
        Err(e) => {
            return Err(FactoryError::Config(e));
        },
    };
    let kind = match ProblemKind::resolve(problem) {
        Ok(kind) => kind,
        Err(e) => {
            return Err(e);
        },
    };
    match kind {
        ProblemKind::Sat3 => match SAT3::load(instance, config) {
            Ok(sat) => Ok((Problem::Sat3(sat), config)),
            Err(e) => Err(FactoryError::InstanceParseError(e)),
        },
        other => Ok((Problem::External(other), config)),
    }
}

} // verus!
