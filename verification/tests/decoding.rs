use hmm_viterbi::decoder::viterbi;
use hmm_viterbi::decoder::ViterbiError;
use hmm_viterbi::model::HMM;

fn row(vals: &[f64]) -> Vec<u64> {
    vals.iter().map(|v| v.to_bits()).collect()
}

fn dice_model() -> HMM {
    let transitions = vec![
        row(&[0.95f64.ln(), 0.05f64.ln()]),
        row(&[0.1f64.ln(), 0.9f64.ln()]),
    ];
    let sixth = (1.0f64 / 6.0).ln();
    let emissions = vec![
        row(&[sixth, sixth, sixth, sixth, sixth, sixth]),
        row(&[
            0.1f64.ln(),
            0.1f64.ln(),
            0.1f64.ln(),
            0.1f64.ln(),
            0.1f64.ln(),
            0.5f64.ln(),
        ]),
    ];
    let initial = row(&[0.5f64.ln(), 0.5f64.ln()]);
    HMM::new(transitions, emissions, initial).unwrap()
}

fn dice_observations() -> Vec<usize> {
    vec![
        3, 1, 5, 1, 1, 6, 2, 4, 6, 4, 4, 6, 6, 4, 4, 2, 4, 5, 3, 1, 1, 3, 2, 1, 6, 3, 1, 1, 6, 4,
        1, 5, 2, 1, 3, 3, 6, 2, 5, 1, 4, 4, 5, 4, 3, 6, 3, 1, 6, 5, 6, 6, 2, 6, 5, 6, 6, 6, 6, 6,
        6, 5, 1, 1, 6, 6, 4, 5, 3, 1, 3, 2, 6, 5, 1, 2, 4,
    ]
}

#[test]
fn dice_scenario_decodes_known_path() {
    let hmm = dice_model();
    let observations = dice_observations();
    let path = viterbi(&hmm, &observations).unwrap();
    let mut labels = String::new();
    for s in &path {
        labels.push(if *s == 0 { 'F' } else { 'L' });
    }
    let expected = format!(
        "{}{}{}",
        "F".repeat(48),
        "L".repeat(18),
        "F".repeat(11)
    );
    assert_eq!(labels, expected);
}

#[test]
fn path_has_one_state_per_observation_in_range() {
    let hmm = dice_model();
    let observations = dice_observations();
    let path = viterbi(&hmm, &observations).unwrap();
    assert_eq!(path.len(), observations.len());
    for s in &path {
        assert!(*s < 2);
    }
}

#[test]
fn decoding_is_deterministic() {
    let hmm = dice_model();
    let observations = dice_observations();
    let first = viterbi(&hmm, &observations).unwrap();
    let second = viterbi(&hmm, &observations).unwrap();
    assert_eq!(first, second);
}

#[test]
fn single_observation_uses_emission_plus_initial() {
    // argmax over emission alone would pick state 1 (0.4 > 0.3); the
    // initial-state weights swing the choice to state 0.
    let transitions = vec![row(&[0.5f64.ln(), 0.5f64.ln()]), row(&[0.5f64.ln(), 0.5f64.ln()])];
    let emissions = vec![row(&[0.3f64.ln()]), row(&[0.4f64.ln()])];
    let initial = row(&[0.9f64.ln(), 0.01f64.ln()]);
    let hmm = HMM::new(transitions, emissions, initial).unwrap();
    let path = viterbi(&hmm, &vec![1]).unwrap();
    assert_eq!(path, vec![0]);
}

#[test]
fn out_of_range_symbol_is_a_fatal_error() {
    let hmm = dice_model();
    assert_eq!(
        viterbi(&hmm, &vec![3, 7, 1]),
        Err(ViterbiError::SymbolOutOfRange)
    );
    assert_eq!(viterbi(&hmm, &vec![0]), Err(ViterbiError::SymbolOutOfRange));
}

#[test]
fn empty_observations_are_rejected() {
    let hmm = dice_model();
    assert_eq!(viterbi(&hmm, &vec![]), Err(ViterbiError::EmptyObservations));
}

#[test]
fn exact_tie_under_flat_prior_picks_lowest_state() {
    // The two emission weights are adjacent binary64 values near -0.3,
    // chosen so that adding ln(1/2) rounds both sums to the same value:
    // an exact tie at the end-state argmax, which the lowest index wins.
    // A decoder whose final prior were anything much smaller would keep
    // the sums distinct and pick state 1 instead.
    let a = f64::from_bits(0xbfd3333333333335);
    let b = f64::from_bits(0xbfd3333333333336);
    assert!(a > b);
    let half = 0.5f64.ln();
    assert_eq!(a + half, b + half);
    let transitions = vec![row(&[half, half]), row(&[half, half])];
    let emissions = vec![row(&[a]), row(&[b])];
    let initial = row(&[0.0, 0.0]);
    let hmm = HMM::new(transitions, emissions, initial).unwrap();
    let path = viterbi(&hmm, &vec![1]).unwrap();
    assert_eq!(path, vec![0]);
}

#[test]
fn end_state_ignores_initial_state_prior() {
    // Both models share emissions and transitions; only initial_state
    // differs. With T = 1 the final column is emission + initial, and a
    // decoder that reused initial_state as the end-state prior would
    // pick state 1 for the first model; the flat prior keeps state 0.
    let half = 0.5f64.ln();
    let transitions = vec![row(&[half, half]), row(&[half, half])];
    let emissions = vec![row(&[-1.0]), row(&[-2.5])];
    let first = HMM::new(
        transitions.clone(),
        emissions.clone(),
        row(&[-2.0, -1.0]),
    )
    .unwrap();
    let second = HMM::new(transitions, emissions, row(&[-1.0, -2.0])).unwrap();
    assert_eq!(viterbi(&first, &vec![1]).unwrap(), vec![0]);
    assert_eq!(viterbi(&second, &vec![1]).unwrap(), vec![0]);
}

#[test]
fn nan_candidates_never_win() {
    // State 1's emissions are NaN throughout; every candidate through
    // it is NaN and must be passed over, not propagated.
    let transitions = vec![row(&[0.5f64.ln(), 0.5f64.ln()]), row(&[0.5f64.ln(), 0.5f64.ln()])];
    let emissions = vec![row(&[0.5f64.ln()]), row(&[f64::NAN])];
    let initial = row(&[0.5f64.ln(), 0.5f64.ln()]);
    let hmm = HMM::new(transitions, emissions, initial).unwrap();
    let path = viterbi(&hmm, &vec![1, 1, 1]).unwrap();
    assert_eq!(path, vec![0, 0, 0]);
}

#[test]
fn negative_infinity_never_wins_over_finite() {
    // State 0 cannot emit symbol 2 (probability zero, log -inf); the
    // decoder must route the path through state 1 at that step.
    let transitions = vec![row(&[0.5f64.ln(), 0.5f64.ln()]), row(&[0.5f64.ln(), 0.5f64.ln()])];
    let emissions = vec![
        row(&[0.9f64.ln(), f64::NEG_INFINITY]),
        row(&[0.5f64.ln(), 0.5f64.ln()]),
    ];
    let initial = row(&[0.5f64.ln(), 0.5f64.ln()]);
    let hmm = HMM::new(transitions, emissions, initial).unwrap();
    let path = viterbi(&hmm, &vec![2]).unwrap();
    assert_eq!(path, vec![1]);
}

#[test]
fn all_negative_infinity_ties_break_deterministically() {
    // Every candidate is -inf; the tie-break still picks the lowest
    // state index, twice over.
    let transitions = vec![row(&[0.5f64.ln(), 0.5f64.ln()]), row(&[0.5f64.ln(), 0.5f64.ln()])];
    let emissions = vec![row(&[f64::NEG_INFINITY]), row(&[f64::NEG_INFINITY])];
    let initial = row(&[0.5f64.ln(), 0.5f64.ln()]);
    let hmm = HMM::new(transitions, emissions, initial).unwrap();
    let first = viterbi(&hmm, &vec![1]).unwrap();
    let second = viterbi(&hmm, &vec![1]).unwrap();
    assert_eq!(first, vec![0]);
    assert_eq!(first, second);
}

#[test]
fn stuck_forward_step_is_a_fatal_error() {
    // With NaN emissions every step-1 candidate is NaN, so the forward
    // pass cannot continue past the first column.
    let transitions = vec![row(&[0.5f64.ln()])];
    let emissions = vec![row(&[f64::NAN])];
    let initial = row(&[0.5f64.ln()]);
    let hmm = HMM::new(transitions, emissions, initial).unwrap();
    assert_eq!(viterbi(&hmm, &vec![1, 1]), Err(ViterbiError::NoViableState));
}

#[test]
fn all_nan_scores_are_a_fatal_error() {
    let transitions = vec![row(&[0.5f64.ln()])];
    let emissions = vec![row(&[f64::NAN])];
    let initial = row(&[0.5f64.ln()]);
    let hmm = HMM::new(transitions, emissions, initial).unwrap();
    assert_eq!(viterbi(&hmm, &vec![1]), Err(ViterbiError::NoViableState));
}
