//! The 3-SAT evaluator: a formula of three-literal clauses, and the count of
//! the clauses that a candidate assignment satisfies.

use crate::config::Config;
use crate::instance::{
    all_lines_are_clauses, clause_of_line, instance_of, is_first_malformed, lines, load_instance,
    InstanceError,
};
use vstd::prelude::*;

verus! {

/// A clause as the evaluator holds it: the indices of its three variables,
/// counted from zero, and for each whether it stands negated.
pub struct Clause {
    pub vars: (i32, i32, i32),
    pub negated: (bool, bool, bool),
}

/// The index of the variable that a literal names: its magnitude less one.
pub open spec fn variable_index(literal: int) -> int {
    if literal < 0 {
        -literal - 1
    } else {
        literal - 1
    }
}

/// A literal names a variable of a chromosome with `dim` genes: it is not
/// zero and its magnitude is at most `dim`.
pub open spec fn literal_in_dimension(literal: int, dim: int) -> bool {
    literal != 0 && variable_index(literal) < dim
}

/// All three literals of the clause name variables below `dim`.
pub open spec fn clause_in_dimension(clause: (i32, i32, i32), dim: int) -> bool {
    &&& literal_in_dimension(clause.0 as int, dim)
    &&& literal_in_dimension(clause.1 as int, dim)
    &&& literal_in_dimension(clause.2 as int, dim)
}

/// The clause that three literals encode.
pub open spec fn clause_of(literals: (i32, i32, i32)) -> Clause {
    Clause {
        vars: (
            variable_index(literals.0 as int) as i32,
            variable_index(literals.1 as int) as i32,
            variable_index(literals.2 as int) as i32,
        ),
        negated: (literals.0 < 0, literals.1 < 0, literals.2 < 0),
    }
}

/// The formula that a raw instance encodes, clause by clause.
pub open spec fn encode(problem: Seq<(i32, i32, i32)>) -> Seq<Clause> {
    Seq::new(problem.len(), |i: int| clause_of(problem[i]))
}

/// The truth of a literal under an assignment, read from the literal itself:
/// a positive literal is its variable, a negative one the opposite.
pub open spec fn literal_true(candidate: Seq<bool>, literal: int) -> bool {
    if literal < 0 {
        !candidate[variable_index(literal)]
    } else {
        candidate[variable_index(literal)]
    }
}

impl Clause {
    /// The three variables are genes of a chromosome of this length.
    pub open spec fn fits(self, len: int) -> bool {
        &&& 0 <= self.vars.0 < len
        &&& 0 <= self.vars.1 < len
        &&& 0 <= self.vars.2 < len
    }

    /// The clause is satisfied: one of its variables, flipped where it stands
    /// negated, is true.
    pub open spec fn holds(self, candidate: Seq<bool>) -> bool {
        ||| candidate[self.vars.0 as int] != self.negated.0
        ||| candidate[self.vars.1 as int] != self.negated.1
        ||| candidate[self.vars.2 as int] != self.negated.2
    }
}

/// The number of clauses of the formula that the candidate satisfies.
pub open spec fn satisfied_count(formula: Seq<Clause>, candidate: Seq<bool>) -> nat
    decreases formula.len(),
{
    if formula.len() == 0 {
        0
    } else {
        satisfied_count(formula.drop_last(), candidate) + if formula.last().holds(candidate) {
            1nat
        } else {
            0nat
        }
    }
}

/// No more clauses are satisfied than there are.
pub proof fn lemma_count_at_most_len(formula: Seq<Clause>, candidate: Seq<bool>)
    ensures
        satisfied_count(formula, candidate) <= formula.len(),
    decreases formula.len(),
{
    if formula.len() > 0 {
        lemma_count_at_most_len(formula.drop_last(), candidate);
    }
}

/// The count over a formula cut in two is the sum of the counts over the
/// parts: the clauses can be shared out among workers, and the partial
/// counts added in any grouping.
pub proof fn lemma_count_of_parts(left: Seq<Clause>, right: Seq<Clause>, candidate: Seq<bool>)
    ensures
        satisfied_count(left + right, candidate) == satisfied_count(left, candidate)
            + satisfied_count(right, candidate),
    decreases right.len(),
{
    if right.len() == 0 {
        assert(left + right =~= left);
    } else {
        assert((left + right).drop_last() =~= left + right.drop_last());
        lemma_count_of_parts(left, right.drop_last(), candidate);
    }
}

/// Swapping two neighbouring parts of a formula leaves the count as it is:
/// the order in which the partial counts are added does not matter.
pub proof fn lemma_count_of_swapped_parts(
    left: Seq<Clause>,
    right: Seq<Clause>,
    candidate: Seq<bool>,
)
    ensures
        satisfied_count(left + right, candidate) == satisfied_count(right + left, candidate),
{
    lemma_count_of_parts(left, right, candidate);
    lemma_count_of_parts(right, left, candidate);
}

/// Taking a clause out of a formula takes from the count what that clause
/// adds to it.
pub proof fn lemma_count_without(formula: Seq<Clause>, index: int, candidate: Seq<bool>)
    requires
        0 <= index < formula.len(),
    ensures
        satisfied_count(formula, candidate) == satisfied_count(formula.remove(index), candidate)
            + if formula[index].holds(candidate) {
            1nat
        } else {
            0nat
        },
{
    let left = formula.take(index);
    let middle = seq![formula[index]];
    let right = formula.skip(index + 1);
    assert(formula =~= (left + middle) + right);
    assert(satisfied_count(middle.drop_last(), candidate) == 0);
    lemma_count_of_parts(left, middle, candidate);
    lemma_count_of_parts(left + middle, right, candidate);
    lemma_count_of_parts(left, right, candidate);
}

/// Two formulas that hold the same clauses, each as many times, have the
/// same count: the order in which the clauses are visited does not matter.
pub proof fn lemma_count_of_rearranged(
    first: Seq<Clause>,
    second: Seq<Clause>,
    candidate: Seq<bool>,
)
    requires
        first.to_multiset() == second.to_multiset(),
    ensures
        satisfied_count(first, candidate) == satisfied_count(second, candidate),
    decreases first.len(),
{
    first.to_multiset_ensures();
    second.to_multiset_ensures();
    if first.len() > 0 {
        let last = first.last();
        let front = first.drop_last();
        front.to_multiset_ensures();
        assert(front.push(last) =~= first);
        assert(first.to_multiset().count(last) > 0);
        let index = choose|index: int| 0 <= index < second.len() && second[index] == last;
        assert(second.remove(index).to_multiset() =~= front.to_multiset());
        lemma_count_of_rearranged(front, second.remove(index), candidate);
        lemma_count_without(second, index, candidate);
    }
}

/// The count reads of a candidate only the genes that the formula names: two
/// candidates that agree below the dimension of the formula have the same
/// count, whatever else they hold.
pub proof fn lemma_count_reads_named_genes(
    formula: Seq<Clause>,
    first: Seq<bool>,
    second: Seq<bool>,
    dim: int,
)
    requires
        forall|i: int| 0 <= i < formula.len() ==> (#[trigger] formula[i]).fits(dim),
        forall|g: int| 0 <= g < dim ==> first[g] == second[g],
    ensures
        satisfied_count(formula, first) == satisfied_count(formula, second),
    decreases formula.len(),
{
    if formula.len() > 0 {
        lemma_count_reads_named_genes(formula.drop_last(), first, second, dim);
    }
}

/// A clause read from literals in dimension holds exactly when one of the
/// literals is true.
pub proof fn lemma_clause_of_literals(literals: (i32, i32, i32), candidate: Seq<bool>)
    requires
        clause_in_dimension(literals, candidate.len() as int),
    ensures
        clause_of(literals).fits(candidate.len() as int),
        clause_of(literals).holds(candidate) <==> (literal_true(candidate, literals.0 as int)
            || literal_true(candidate, literals.1 as int) || literal_true(
            candidate,
            literals.2 as int,
        )),
{
}


/// The index of the first clause of the instance that is not in dimension.
pub open spec fn is_first_outside(problem: Seq<(i32, i32, i32)>, dim: int, k: int) -> bool {
    &&& 0 <= k < problem.len()
    &&& !clause_in_dimension(problem[k], dim)
    &&& forall|j: int| 0 <= j < k ==> clause_in_dimension(#[trigger] problem[j], dim)
}

/// Every clause of the instance is in dimension.
pub open spec fn all_in_dimension(problem: Seq<(i32, i32, i32)>, dim: int) -> bool {
    forall|j: int| 0 <= j < problem.len() ==> clause_in_dimension(#[trigger] problem[j], dim)
}

/// Whether a literal is not zero and names a variable below `dim`.
fn literal_fits(literal: i32, dim: usize) -> (r: bool)
    ensures
        r == literal_in_dimension(literal as int, dim as int),
{
    let wide: i64 = literal as i64;
    let magnitude: i64 = if wide < 0 {
        -wide
    } else {
        wide
    };
    magnitude >= 1 && (magnitude as u64) <= (dim as u64)
}

/// The index of the variable of a literal.
fn index_of(literal: i32) -> (r: i32)
    ensures
        r == variable_index(literal as int),
{
    let wide: i64 = literal as i64;
    let magnitude: i64 = if wide < 0 {
        -wide
    } else {
        wide
    };
    (magnitude - 1) as i32
}

/// What building a problem from a raw instance comes to: the formula that
/// the instance encodes, with the configuration as given, where every clause
/// is in dimension, and else the index of the first clause that is not.
pub open spec fn is_built_from(
    outcome: Result<SAT3, InstanceError>,
    problem: Seq<(i32, i32, i32)>,
    config: Config,
) -> bool {
    match outcome {
        Ok(sat) => {
            &&& all_in_dimension(problem, config.pop_config.dim as int)
            &&& sat@ == encode(problem)
            &&& sat.configuration() == config
        },
        Err(InstanceError::LiteralOutOfDimension { clause }) => is_first_outside(
            problem,
            config.pop_config.dim as int,
            clause as int,
        ),
        Err(InstanceError::MalformedLine { .. }) => false,
    }
}

/// What loading a problem from the text of an instance comes to: the index of
/// the first line that is no clause, where there is one, and else what
/// building from the instance that the text writes comes to.
pub open spec fn is_loaded_from(
    outcome: Result<SAT3, InstanceError>,
    text: Seq<u8>,
    config: Config,
) -> bool {
    if all_lines_are_clauses(text) {
        is_built_from(outcome, instance_of(text), config)
    } else {
        outcome matches Err(InstanceError::MalformedLine { line }) && is_first_malformed(
            text,
            line as int,
        )
    }
}

/// Building is determined by the instance and the configuration: two
/// outcomes for the same pair fail alike, or succeed with the same formula,
/// the same configuration and the same count for every candidate.
pub proof fn lemma_build_is_determined(
    first: Result<SAT3, InstanceError>,
    second: Result<SAT3, InstanceError>,
    problem: Seq<(i32, i32, i32)>,
    config: Config,
    candidate: Seq<bool>,
)
    requires
        is_built_from(first, problem, config),
        is_built_from(second, problem, config),
    ensures
        first is Ok <==> all_in_dimension(problem, config.pop_config.dim as int),
        first is Ok <==> second is Ok,
        first is Err ==> first->Err_0 == second->Err_0,
        first is Ok ==> {
            &&& first->Ok_0@ == second->Ok_0@
            &&& first->Ok_0.configuration() == second->Ok_0.configuration()
            &&& satisfied_count(first->Ok_0@, candidate) == satisfied_count(
                second->Ok_0@,
                candidate,
            )
        },
{
}

/// Loading is determined by the text and the configuration, as building is
/// by the instance.
pub proof fn lemma_load_is_determined(
    first: Result<SAT3, InstanceError>,
    second: Result<SAT3, InstanceError>,
    text: Seq<u8>,
    config: Config,
    candidate: Seq<bool>,
)
    requires
        is_loaded_from(first, text, config),
        is_loaded_from(second, text, config),
    ensures
        first is Ok <==> second is Ok,
        first is Err ==> first->Err_0 == second->Err_0,
        first is Ok ==> {
            &&& first->Ok_0@ == second->Ok_0@
            &&& first->Ok_0.configuration() == second->Ok_0.configuration()
            &&& satisfied_count(first->Ok_0@, candidate) == satisfied_count(
                second->Ok_0@,
                candidate,
            )
        },
{
    if all_lines_are_clauses(text) {
        lemma_build_is_determined(first, second, instance_of(text), config, candidate);
    }
}

/// A 3-SAT problem: a formula and the configuration of the run that
/// optimises it. Every variable of the formula is a gene of a chromosome of
/// the configured dimension.
pub struct SAT3 {
    config: Config,
    clause_id: Vec<(i32, i32, i32)>,
    clause_neg: Vec<(bool, bool, bool)>,
}

impl View for SAT3 {
    type V = Seq<Clause>;

    /// The formula, clause by clause.
    closed spec fn view(&self) -> Seq<Clause> {
        Seq::new(
            self.clause_id@.len(),
            |i: int| Clause { vars: self.clause_id@[i], negated: self.clause_neg@[i] },
        )
    }
}

impl SAT3 {
    #[verifier::type_invariant]
    spec fn well_formed(&self) -> bool {
        &&& self.clause_id@.len() == self.clause_neg@.len()
        &&& forall|i: int|
            0 <= i < self.clause_id@.len() ==> (Clause {
                vars: #[trigger] self.clause_id@[i],
                negated: self.clause_neg@[i],
            }).fits(self.config.pop_config.dim as int)
    }

    /// The configuration that the problem was built with.
    pub closed spec fn configuration(&self) -> Config {
        self.config
    }

    /// The length of the chromosomes that the problem evaluates.
    pub open spec fn dimension(&self) -> nat {
        self.configuration().pop_config.dim as nat
    }

    /// Derives the clause encoding from a raw instance: for each literal the
    /// index of its variable, its magnitude less one, and whether it is
    /// negative.
    pub fn clauses(problem: &Vec<(i32, i32, i32)>) -> (r: (
        Vec<(i32, i32, i32)>,
        Vec<(bool, bool, bool)>,
    ))
        ensures
            r.0@.len() == problem@.len(),
            r.1@.len() == problem@.len(),
            forall|i: int|
                0 <= i < problem@.len() ==> (Clause { vars: #[trigger] r.0@[i], negated: r.1@[i] })
                    == clause_of(problem@[i]),
    {
        let mut clause_id: Vec<(i32, i32, i32)> = Vec::new();
        let mut clause_neg: Vec<(bool, bool, bool)> = Vec::new();
        let mut i: usize = 0;
        while i < problem.len()
            invariant
                i <= problem@.len(),
                clause_id@.len() == i,
                clause_neg@.len() == i,
                forall|j: int|
                    0 <= j < i ==> (Clause { vars: #[trigger] clause_id@[j], negated: clause_neg@[j] })
                        == clause_of(problem@[j]),
            decreases problem@.len() - i,
        {
            let (a, b, c) = problem[i];
            clause_id.push((index_of(a), index_of(b), index_of(c)));
            clause_neg.push((a < 0, b < 0, c < 0));
            i = i + 1;
        }
        (clause_id, clause_neg)
    }

    /// Builds the problem from a raw instance and a configuration.
    ///
    /// The instance is refused, with the index of its first offending clause,
    /// where a literal is zero or names a variable beyond the configured
    /// dimension.
    pub fn new(problem: Vec<(i32, i32, i32)>, config: Config) -> (r: Result<SAT3, InstanceError>)
        ensures
            is_built_from(r, problem@, config),
    {
        let dim: usize = config.pop_config.dim;
        let mut k: usize = 0;
        while k < problem.len()
            invariant
                k <= problem@.len(),
                dim == config.pop_config.dim,
                forall|j: int| 0 <= j < k ==> clause_in_dimension(#[trigger] problem@[j], dim as int),
            decreases problem@.len() - k,
        {
            let (a, b, c) = problem[k];
            if !(literal_fits(a, dim) && literal_fits(b, dim) && literal_fits(c, dim)) {
                return Err(InstanceError::LiteralOutOfDimension { clause: k });
            }
            k = k + 1;
        }
        let (clause_id, clause_neg) = SAT3::clauses(&problem);
        let sat = SAT3 { config, clause_id, clause_neg };
        assert(sat@ =~= encode(problem@));
        Ok(sat)
    }

    /// Builds the problem from the text of an instance and a configuration.
    ///
    /// The text is refused where a line is not three literals, and the
    /// instance that it writes where a clause is not in dimension.
    pub fn load(text: &[u8], config: Config) -> (r: Result<SAT3, InstanceError>)
        ensures
            is_loaded_from(r, text@, config),
    {
        match load_instance(text) {
            Ok(problem) => SAT3::new(problem, config),
            Err(e) => Err(e),
        }
    }

    /// The configuration that the problem was built with.
    pub fn get_config(&self) -> (r: &Config)
        ensures
            *r == self.configuration(),
    {
        &self.config
    }

    /// The number of clauses of the formula.
    pub fn clause_count(&self) -> (r: usize)
        ensures
            r == self@.len(),
    {
        proof {
            use_type_invariant(self);
        }
        self.clause_id.len()
    }

    /// Whether the solution satisfies a clause: each of the three variables
    /// is looked up, flipped where the clause negates it, and the three are
    /// joined by "or".
    pub fn eval_solution(
        &self,
        solution: &[bool],
        clause_id: &(i32, i32, i32),
        clause_neg: &(bool, bool, bool),
    ) -> (r: bool)
        requires
            (Clause { vars: *clause_id, negated: *clause_neg }).fits(solution@.len() as int),
        ensures
            r == (Clause { vars: *clause_id, negated: *clause_neg }).holds(solution@),
    {
        let (a, b, c) = *clause_id;
        let (na, nb, nc) = *clause_neg;
        let solution_a: bool = solution[a as usize];
        let solution_b: bool = solution[b as usize];
        let solution_c: bool = solution[c as usize];
        let checked_solution_a = if na {
            !solution_a
        } else {
            solution_a
        };
        let checked_solution_b = if nb {
            !solution_b
        } else {
            solution_b
        };
        let checked_solution_c = if nc {
            !solution_c
        } else {
            solution_c
        };
        checked_solution_a || checked_solution_b || checked_solution_c
    }

    /// Whether the candidate satisfies the clause with the given index.
    pub fn clause_satisfied(&self, candidate: &[bool], index: usize) -> (r: bool)
        requires
            self.dimension() <= candidate@.len(),
            index < self@.len(),
        ensures
            r == self@[index as int].holds(candidate@),
    {
        proof {
            use_type_invariant(self);
        }
        self.eval_solution(candidate, &self.clause_id[index], &self.clause_neg[index])
    }

    /// The number of clauses that the candidate satisfies: between zero and
    /// the number of clauses, and zero for the empty formula.
    pub fn objective(&self, candidate: &[bool]) -> (count: usize)
        requires
            self.dimension() <= candidate@.len(),
        ensures
            count == satisfied_count(self@, candidate@),
            count <= self@.len(),
    {
        proof {
            use_type_invariant(self);
        }
        let n: usize = self.clause_id.len();
        let mut count: usize = 0;
        let mut i: usize = 0;
        while i < n
            invariant
                i <= n,
                n == self@.len(),
                self.dimension() <= candidate@.len(),
                count == satisfied_count(self@.take(i as int), candidate@),
                count <= i,
            decreases n - i,
        {
            let satisfied = self.clause_satisfied(candidate, i);
            proof {
                assert(self@.take(i + 1).drop_last() =~= self@.take(i as int));
            }
            if satisfied {
                count = count + 1;
            }
            i = i + 1;
        }
        proof {
            assert(self@.take(n as int) =~= self@);
        }
        count
    }

    /// The objective on a scale shared by all instances. A count of clauses
    /// needs no rescaling: it is the objective itself.
    pub fn normed_objective(&self, candidate: &[bool]) -> (count: usize)
        requires
            self.dimension() <= candidate@.len(),
        ensures
            count == satisfied_count(self@, candidate@),
            count <= self@.len(),
    {
        self.objective(candidate)
    }

    /// The magnitude by which the candidate violates the constraints of the
    /// problem. The problem has none beside its objective: it is zero.
    pub fn constraint(&self, candidate: &[bool]) -> (r: usize)
        ensures
            r == 0,
    {
        0
    }
}

} // verus!
