use proof_of_sql_slice::final_round_builder::FinalRoundBuilder;
use proof_of_sql_slice::first_round_builder::FirstRoundBuilder;
use proof_of_sql_slice::scalar::Scalar;
use proof_of_sql_slice::slice_exec::{
    filter_column, get_slice_select, slice_bounds, DynProofPlan, SliceExec, Table,
    TableEvaluation, TableExec,
};
use proof_of_sql_slice::verification_builder::{
    ProofError, SumcheckMleEvaluations, VerificationBuilder,
};
use std::collections::HashMap;

fn scalars(v: &[u64]) -> Vec<Scalar> {
    v.iter().map(|x| Scalar::from_u64(*x)).collect()
}

fn slice(skip: usize, fetch: Option<usize>) -> SliceExec {
    SliceExec::new(
        Box::new(DynProofPlan::Table(TableExec { table_ref: 0 })),
        skip,
        fetch,
    )
}

#[test]
fn the_selection_covers_the_window() {
    assert_eq!(
        get_slice_select(6, 2, Some(3)),
        vec![false, false, true, true, true, false]
    );
    assert_eq!(get_slice_select(4, 1, None), vec![false, true, true, true]);
    assert_eq!(get_slice_select(3, 0, Some(0)), vec![false, false, false]);
    assert_eq!(get_slice_select(0, 2, Some(1)), Vec::<bool>::new());
    assert_eq!(get_slice_select(3, 1, Some(usize::MAX)), vec![false, true, true]);
}

#[test]
fn the_selection_counts_the_output_rows() {
    for n in 0..7usize {
        for skip in 0..9usize {
            for fetch in [None, Some(0), Some(1), Some(3), Some(10)] {
                let select = get_slice_select(n, skip, fetch);
                let (lo, hi) = slice_bounds(n, skip, fetch);
                assert_eq!(select.len(), n);
                assert_eq!(select.iter().filter(|b| **b).count(), hi - lo);
            }
        }
    }
}

#[test]
fn a_window_past_the_end_is_empty() {
    assert_eq!(slice_bounds(5, 10, None), (5, 5));
    assert_eq!(slice_bounds(5, 10, Some(2)), (5, 5));
    assert_eq!(get_slice_select(5, 10, None), vec![false; 5]);
    let mut builder = FirstRoundBuilder::new();
    let input = Table {
        columns: vec![scalars(&[1, 2, 3, 4, 5])],
        num_rows: 5,
    };
    let out = slice(10, None).first_round_evaluate(&mut builder, &input);
    assert_eq!(out.num_rows, 0);
    assert!(out.columns[0].is_empty());
    assert_eq!(builder.one_evaluation_lengths(), &vec![0, 5, 5]);
}

#[test]
fn the_bounds_clamp_to_the_row_count() {
    assert_eq!(slice_bounds(10, 2, Some(3)), (2, 5));
    assert_eq!(slice_bounds(10, 8, Some(3)), (8, 10));
    assert_eq!(slice_bounds(10, 3, None), (3, 10));
    assert_eq!(slice_bounds(0, 0, None), (0, 0));
    assert_eq!(slice_bounds(10, usize::MAX, Some(usize::MAX)), (10, 10));
}

#[test]
fn filtering_keeps_selected_rows_in_order() {
    let column = scalars(&[10, 20, 30, 40]);
    let kept = filter_column(&column, &vec![true, false, true, true]);
    assert_eq!(kept, scalars(&[10, 30, 40]));
}

#[test]
fn the_first_pass_keeps_the_window_and_announces_its_lengths() {
    let input = Table {
        columns: vec![scalars(&[1, 2, 3, 4, 5]), scalars(&[6, 7, 8, 9, 10])],
        num_rows: 5,
    };
    let mut builder = FirstRoundBuilder::new();
    let out = slice(1, Some(2)).first_round_evaluate(&mut builder, &input);
    assert_eq!(out.num_rows, 2);
    assert_eq!(out.columns, vec![scalars(&[2, 3]), scalars(&[7, 8])]);
    assert_eq!(builder.one_evaluation_lengths(), &vec![2, 1, 3]);
    assert_eq!(builder.num_post_result_challenges(), 2);
}

#[test]
fn skipping_nothing_and_fetching_everything_keeps_the_table() {
    let input = Table {
        columns: vec![scalars(&[4, 5, 6])],
        num_rows: 3,
    };
    let mut builder = FirstRoundBuilder::new();
    let out = slice(0, None).first_round_evaluate(&mut builder, &input);
    assert_eq!(out.num_rows, input.num_rows);
    assert_eq!(out.columns, input.columns);
}

fn one_evaluations() -> HashMap<usize, Scalar> {
    let mut m = HashMap::new();
    m.insert(2usize, Scalar::from_u64(200));
    m.insert(1usize, Scalar::from_u64(100));
    m.insert(3usize, Scalar::from_u64(350));
    m
}

#[test]
fn the_verifier_pass_claims_the_window() {
    let mle_evaluations = SumcheckMleEvaluations {
        pcs_proof_evaluations: scalars(&[21, 22]),
        one_evaluations: one_evaluations(),
        ..Default::default()
    };
    let mut builder = VerificationBuilder::new(
        0,
        mle_evaluations,
        &[][..],
        &[][..],
        scalars(&[9, 8]),
        vec![2, 1, 3],
    );
    let input = TableEvaluation {
        column_evals: scalars(&[11, 12]),
        one_eval: Scalar::from_u64(500),
    };
    let claim = slice(1, Some(2))
        .verifier_evaluate(&mut builder, &input)
        .unwrap();
    assert_eq!(claim.output_one_eval, Scalar::from_u64(200));
    assert_eq!(claim.selection_eval, Scalar::from_u64(250));
    assert_eq!(claim.output_column_evals, scalars(&[21, 22]));
    assert_eq!(claim.input_column_evals, scalars(&[11, 12]));
    assert_eq!(claim.input_one_eval, Scalar::from_u64(500));
    assert_eq!(claim.alpha, Scalar::from_u64(8));
    assert_eq!(claim.beta, Scalar::from_u64(9));
    assert_eq!(builder.sumcheck_evaluation(), Ok(Scalar::zero()));
}

#[test]
fn the_verifier_pass_rejects_missing_quantities() {
    let input = TableEvaluation {
        column_evals: scalars(&[11, 12]),
        one_eval: Scalar::from_u64(500),
    };
    let cases: Vec<(Vec<u64>, Vec<usize>, Vec<u64>, ProofError)> = vec![
        (vec![21, 22], vec![2, 1], vec![9, 8], ProofError::MalformedProof),
        (vec![21, 22], vec![2, 4, 3], vec![9, 8], ProofError::LookupFailure),
        (vec![21], vec![2, 1, 3], vec![9, 8], ProofError::MalformedProof),
        (vec![21, 22], vec![2, 1, 3], vec![9], ProofError::MalformedProof),
    ];
    for (evals, lengths, challenges, err) in cases {
        let mle_evaluations = SumcheckMleEvaluations {
            pcs_proof_evaluations: scalars(&evals),
            one_evaluations: one_evaluations(),
            ..Default::default()
        };
        let mut builder = VerificationBuilder::new(
            0,
            mle_evaluations,
            &[][..],
            &[][..],
            scalars(&challenges),
            lengths,
        );
        assert!(matches!(
            slice(1, Some(2)).verifier_evaluate(&mut builder, &input),
            Err(e) if e == err
        ));
    }
}

#[test]
fn the_final_pass_commits_the_window_and_pops_challenges_in_reverse() {
    let input = Table {
        columns: vec![scalars(&[1, 2, 3, 4, 5]), scalars(&[6, 7, 8, 9, 10])],
        num_rows: 5,
    };
    let mut builder = FinalRoundBuilder::new(scalars(&[41, 42, 43]));
    let (out, witness) = slice(3, None).final_round_evaluate(&mut builder, &input);
    assert_eq!(out.num_rows, 2);
    assert_eq!(out.columns, vec![scalars(&[4, 5]), scalars(&[9, 10])]);
    assert_eq!(builder.intermediate_mles(), &out.columns);
    assert_eq!(witness.alpha, Scalar::from_u64(43));
    assert_eq!(witness.beta, Scalar::from_u64(42));
    assert_eq!(witness.selection, vec![false, false, false, true, true]);
    assert_eq!(witness.input_columns, input.columns);
    assert_eq!(witness.output_columns, out.columns);
    assert_eq!(witness.input_length, 5);
    assert_eq!(witness.output_length, 2);
    assert_eq!(builder.consume_post_result_challenge(), Scalar::from_u64(41));
}

#[test]
fn the_verifier_reads_the_lengths_the_prover_announced() {
    for (n, skip, fetch) in [(5usize, 1usize, Some(2usize)), (5, 10, None), (0, 0, None), (4, 0, Some(9))] {
        let input = Table {
            columns: vec![(0..n as u64).map(Scalar::from_u64).collect()],
            num_rows: n,
        };
        let plan = slice(skip, fetch);
        let mut first = FirstRoundBuilder::new();
        let out = plan.first_round_evaluate(&mut first, &input);
        let mut one_evaluations = HashMap::new();
        for len in first.one_evaluation_lengths() {
            one_evaluations.insert(*len, Scalar::from_u64(1000 + *len as u64));
        }
        let mle_evaluations = SumcheckMleEvaluations {
            pcs_proof_evaluations: vec![Scalar::from_u64(77)],
            one_evaluations,
            ..Default::default()
        };
        let mut builder = VerificationBuilder::new(
            0,
            mle_evaluations,
            &[][..],
            &[][..],
            scalars(&[1, 2]),
            first.one_evaluation_lengths().clone(),
        );
        let input_eval = TableEvaluation {
            column_evals: scalars(&[5]),
            one_eval: Scalar::from_u64(1000 + n as u64),
        };
        let claim = plan.verifier_evaluate(&mut builder, &input_eval).unwrap();
        assert_eq!(
            claim.output_one_eval,
            Scalar::from_u64(1000 + out.num_rows as u64)
        );
        let (lo, hi) = slice_bounds(n, skip, fetch);
        assert_eq!(
            claim.selection_eval,
            Scalar::from_u64(1000 + hi as u64).sub(&Scalar::from_u64(1000 + lo as u64))
        );
        assert_eq!(builder.sumcheck_evaluation(), Ok(Scalar::zero()));
    }
}

#[test]
fn the_plan_first_pass_runs_children_before_parents() {
    let tables = vec![
        Table {
            columns: vec![scalars(&[9])],
            num_rows: 1,
        },
        Table {
            columns: vec![scalars(&[1, 2, 3, 4, 5, 6]), scalars(&[7, 8, 9, 10, 11, 12])],
            num_rows: 6,
        },
    ];
    let inner = SliceExec::new(
        Box::new(DynProofPlan::Table(TableExec { table_ref: 1 })),
        1,
        Some(4),
    );
    let outer = DynProofPlan::Slice(SliceExec::new(
        Box::new(DynProofPlan::Slice(inner)),
        2,
        None,
    ));
    let mut builder = FirstRoundBuilder::new();
    let out = outer.first_round_evaluate(&mut builder, &tables);
    assert_eq!(out.num_rows, 2);
    assert_eq!(out.columns, vec![scalars(&[4, 5]), scalars(&[10, 11])]);
    assert_eq!(builder.one_evaluation_lengths(), &vec![4, 1, 5, 2, 2, 4]);
    assert_eq!(builder.num_post_result_challenges(), 4);
    assert_eq!(outer.get_table_references(), vec![1]);
}
