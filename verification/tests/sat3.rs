use ga_core::config::{Config, PopConfig};
use ga_core::instance::InstanceError;
use ga_core::sat3::SAT3;

fn config_of_dimension(dim: usize) -> Config {
    let reference = Config::default();
    Config { pop_config: PopConfig { dim, ..reference.pop_config }, ..reference }
}

#[test]
fn unnegated_clause_is_unsatisfied_by_all_false() {
    let sat = SAT3::load(b"1 2 3", config_of_dimension(3)).unwrap();
    assert_eq!(sat.objective(&[false, false, false]), 0);
}

#[test]
fn clause_is_satisfied_through_its_first_literal() {
    let sat = SAT3::load(b"1 2 3", config_of_dimension(3)).unwrap();
    assert_eq!(sat.objective(&[true, false, false]), 1);
}

#[test]
fn negated_literal_flips_the_gene() {
    let sat = SAT3::load(b"-1 2 3", config_of_dimension(3)).unwrap();
    assert_eq!(sat.objective(&[true, false, false]), 0);
    assert_eq!(sat.objective(&[false, false, false]), 1);
}

#[test]
fn empty_formula_has_objective_zero() {
    let sat = SAT3::new(Vec::new(), config_of_dimension(3)).unwrap();
    assert_eq!(sat.clause_count(), 0);
    assert_eq!(sat.objective(&[true, true, true]), 0);
}

#[test]
fn clauses_derives_indices_and_polarities() {
    let problem = vec![(1, -2, 3), (-7, 5, -1), (i32::MIN, i32::MAX, 0)];
    let (ids, negs) = SAT3::clauses(&problem);
    assert_eq!(ids, vec![(0, 1, 2), (6, 4, 0), (i32::MAX, i32::MAX - 1, -1)]);
    assert_eq!(
        negs,
        vec![(false, true, false), (true, false, true), (true, false, false)]
    );
}

#[test]
fn objective_counts_the_satisfied_clauses() {
    let problem = vec![(1, 2, 3), (-1, -2, -3), (4, -4, 1), (2, 2, 2), (-3, -3, -3)];
    let sat = SAT3::new(problem, config_of_dimension(4)).unwrap();
    assert_eq!(sat.clause_count(), 5);
    // (1 2 3) no, (-1 -2 -3) yes, (4 -4 1) yes, (2 2 2) no, (-3 -3 -3) yes
    assert_eq!(sat.objective(&[false, false, false, false]), 3);
    // (1 2 3) yes, (-1 -2 -3) no, (4 -4 1) yes, (2 2 2) yes, (-3 -3 -3) no
    assert_eq!(sat.objective(&[true, true, true, true]), 3);
    // (1 2 3) yes, (-1 -2 -3) yes, (4 -4 1) yes, (2 2 2) yes, (-3 -3 -3) yes
    assert_eq!(sat.objective(&[false, true, false, true]), 5);
}

#[test]
fn objective_is_between_zero_and_the_number_of_clauses() {
    let problem = vec![(1, 2, 3), (-1, -2, -3), (1, -2, 3), (-1, 2, -3)];
    let sat = SAT3::new(problem, config_of_dimension(3)).unwrap();
    for bits in 0..8u32 {
        let candidate = [bits & 1 != 0, bits & 2 != 0, bits & 4 != 0];
        assert!(sat.objective(&candidate) <= sat.clause_count());
    }
}

#[test]
fn evaluating_twice_gives_the_same_values() {
    let problem = vec![(1, 2, 3), (-1, -2, -3), (1, -2, 3)];
    let sat = SAT3::new(problem, config_of_dimension(3)).unwrap();
    let candidate = [true, false, true];
    assert_eq!(sat.objective(&candidate), sat.objective(&candidate));
    assert_eq!(sat.normed_objective(&candidate), sat.normed_objective(&candidate));
    assert_eq!(sat.constraint(&candidate), sat.constraint(&candidate));
}

#[test]
fn objective_of_a_formula_is_the_sum_over_its_parts() {
    let left = vec![(1, 2, 3), (-1, -2, -3)];
    let right = vec![(1, -2, 3), (2, 2, 2), (-3, -3, -3)];
    let mut whole = left.clone();
    whole.extend(right.iter().copied());
    let config = config_of_dimension(3);
    let candidate = [false, true, false];
    let of_left = SAT3::new(left, config).unwrap().objective(&candidate);
    let of_right = SAT3::new(right, config).unwrap().objective(&candidate);
    let of_whole = SAT3::new(whole, config).unwrap().objective(&candidate);
    assert_eq!(of_left, 2);
    assert_eq!(of_right, 2);
    assert_eq!(of_whole, of_left + of_right);
}

#[test]
fn clause_satisfied_agrees_with_objective() {
    let problem = vec![(1, 2, 3), (-1, -2, -3), (1, -2, 3)];
    let sat = SAT3::new(problem, config_of_dimension(3)).unwrap();
    let candidate = [true, true, true];
    let mut count = 0;
    for i in 0..sat.clause_count() {
        if sat.clause_satisfied(&candidate, i) {
            count += 1;
        }
    }
    assert_eq!(count, 2);
    assert_eq!(sat.objective(&candidate), count);
}

#[test]
fn eval_solution_joins_three_flipped_genes() {
    let sat = SAT3::new(Vec::new(), config_of_dimension(3)).unwrap();
    let solution = [true, false, false];
    assert!(sat.eval_solution(&solution, &(0, 1, 2), &(false, false, false)));
    assert!(!sat.eval_solution(&solution, &(0, 1, 2), &(true, false, false)));
    assert!(sat.eval_solution(&solution, &(0, 1, 2), &(true, true, false)));
    assert!(!sat.eval_solution(&solution, &(1, 2, 1), &(false, false, false)));
}

#[test]
fn normed_objective_is_the_objective() {
    let problem = vec![(1, 2, 3), (-1, -2, -3), (1, -2, 3)];
    let sat = SAT3::new(problem, config_of_dimension(3)).unwrap();
    let candidate = [false, false, true];
    assert_eq!(sat.objective(&candidate), 3);
    assert_eq!(sat.normed_objective(&candidate), 3);
}

#[test]
fn constraint_is_zero() {
    let sat = SAT3::new(vec![(1, 2, 3)], config_of_dimension(3)).unwrap();
    assert_eq!(sat.constraint(&[false, false, false]), 0);
    assert_eq!(sat.constraint(&[true, true, true]), 0);
}

#[test]
fn longer_candidate_is_accepted() {
    let sat = SAT3::new(vec![(1, 2, 3)], config_of_dimension(3)).unwrap();
    assert_eq!(sat.objective(&[false, false, true, true, false]), 1);
}

#[test]
fn variable_beyond_the_dimension_is_refused_at_construction() {
    let problem = vec![(1, 2, 3), (1, 2, 4), (9, 9, 9)];
    let outcome = SAT3::new(problem, config_of_dimension(3));
    assert_eq!(
        outcome.err(),
        Some(InstanceError::LiteralOutOfDimension { clause: 1 })
    );
}

#[test]
fn negative_literal_beyond_the_dimension_is_refused() {
    let outcome = SAT3::new(vec![(1, 2, -4)], config_of_dimension(3));
    assert_eq!(
        outcome.err(),
        Some(InstanceError::LiteralOutOfDimension { clause: 0 })
    );
}

#[test]
fn literal_zero_is_refused() {
    let outcome = SAT3::new(vec![(1, 2, 3), (3, 2, 1), (1, 0, 2)], config_of_dimension(3));
    assert_eq!(
        outcome.err(),
        Some(InstanceError::LiteralOutOfDimension { clause: 2 })
    );
}

#[test]
fn smallest_literal_is_refused_without_overflow() {
    let outcome = SAT3::new(vec![(i32::MIN, 1, 1)], config_of_dimension(3));
    assert_eq!(
        outcome.err(),
        Some(InstanceError::LiteralOutOfDimension { clause: 0 })
    );
}

#[test]
fn literal_at_the_dimension_is_accepted() {
    let sat = SAT3::new(vec![(3, -3, 3)], config_of_dimension(3)).unwrap();
    assert_eq!(sat.objective(&[false, false, false]), 1);
}

#[test]
fn get_config_hands_back_the_configuration() {
    let config = config_of_dimension(7);
    let sat = SAT3::new(vec![(7, 1, 2)], config).unwrap();
    assert_eq!(*sat.get_config(), config);
    assert_eq!(sat.get_config().pop_config.dim, 7);
}

#[test]
fn load_refuses_a_malformed_line_before_the_dimension_is_held() {
    let outcome = SAT3::load(b"9 9 9\n1 2\n", config_of_dimension(3));
    assert_eq!(outcome.err(), Some(InstanceError::MalformedLine { line: 1 }));
}

#[test]
fn load_refuses_a_literal_out_of_dimension() {
    let outcome = SAT3::load(b"1 2 3\n-1 5 2\n", config_of_dimension(3));
    assert_eq!(
        outcome.err(),
        Some(InstanceError::LiteralOutOfDimension { clause: 1 })
    );
}

#[test]
fn objective_does_not_depend_on_the_order_of_the_clauses() {
    let clauses = [(1, 2, 3), (-1, -2, -3), (1, -2, 3), (2, 2, 2), (-3, -3, -3)];
    let orders: [[usize; 5]; 4] = [[0, 1, 2, 3, 4], [4, 3, 2, 1, 0], [2, 0, 4, 1, 3], [1, 4, 0, 3, 2]];
    let config = config_of_dimension(3);
    for bits in 0..8u32 {
        let candidate = [bits & 1 != 0, bits & 2 != 0, bits & 4 != 0];
        let mut counts = Vec::new();
        for order in orders {
            let problem: Vec<(i32, i32, i32)> = order.iter().map(|&i| clauses[i]).collect();
            counts.push(SAT3::new(problem, config).unwrap().objective(&candidate));
        }
        assert!(counts.iter().all(|&c| c == counts[0]));
    }
}

#[test]
fn objective_reads_only_the_genes_below_the_dimension() {
    let sat = SAT3::new(vec![(1, -2, 3), (-1, 2, -3)], config_of_dimension(3)).unwrap();
    assert_eq!(
        sat.objective(&[true, true, false]),
        sat.objective(&[true, true, false, true, false, true])
    );
    assert_eq!(
        sat.objective(&[true, true, false, false, false]),
        sat.objective(&[true, true, false, true, true])
    );
}

#[test]
fn problems_built_alike_evaluate_alike() {
    let problem = vec![(1, 2, 3), (-1, -2, -3), (1, -2, 3)];
    let first = SAT3::new(problem.clone(), config_of_dimension(3)).unwrap();
    let second = SAT3::load(b"1 2 3\n-1 -2 -3\n1 -2 3\n", config_of_dimension(3)).unwrap();
    for bits in 0..8u32 {
        let candidate = [bits & 1 != 0, bits & 2 != 0, bits & 4 != 0];
        assert_eq!(first.objective(&candidate), second.objective(&candidate));
    }
}
