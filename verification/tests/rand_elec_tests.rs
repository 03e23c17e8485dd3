use rand_elec::Mode;

// Standard normal quantiles of 1 - (1-c)/2 for the two-sided confidence
// levels exercised below.
const Z_90_TWO_SIDED: f64 = 1.6448536269514722;
const Z_95_TWO_SIDED: f64 = 1.959963984540054;

fn median(data: &[usize]) -> f64 {
    let v: Vec<usize> = data.to_vec();
    let (lo, hi) = rand_elec::median_pair(&v);
    (lo as f64 + hi as f64) / 2.0
}

// The normal-approximation marks ceil(n*q - span) and ceil(n*q + span) with
// span = z * sqrt(n*q*(1-q)), floored at zero, as the library's presentation
// layer computes them.
fn marks(n: usize, q: f64, z: f64) -> (usize, usize) {
    let nf = n as f64;
    let span = z * (nf * q * (1.0 - q)).sqrt();
    let lo = (nf * q - span).ceil().max(0.0) as usize;
    let hi = (nf * q + span).ceil().max(0.0) as usize;
    (lo, hi)
}

fn ci(sample: &[usize], q: f64, z: f64) -> Option<(usize, usize)> {
    let v: Vec<usize> = sample.to_vec();
    let (lo, hi) = marks(v.len(), q, z);
    rand_elec::confidence_interval(&v, lo, hi)
}

fn all_modes() -> Vec<Mode> {
    vec![Mode::Naive, Mode::Tournament, Mode::Biased, Mode::BiasedSingle, Mode::BiasedFixed]
}

fn generate(mode: Mode, state: &Vec<bool>) -> Vec<bool> {
    match mode {
        Mode::Naive => rand_elec::naive_gen(state),
        Mode::Tournament => rand_elec::tournament_gen(state),
        Mode::Biased => rand_elec::biased_tournament_gen(state),
        Mode::BiasedSingle => rand_elec::biased_single_gen(state),
        Mode::BiasedFixed => rand_elec::biased_fixed_gen(state),
    }
}

#[test]
fn test_median() {
    assert_eq!(median(&[1, 2, 3, 3, 4, 5]), 3.);
    assert_eq!(median(&[1]), 1.);
    assert_eq!(median(&[1, 2, 3, 4, 5, 6]), 3.5);
    assert_eq!(median(&[1, 2, 3, 4, 5, 6, 7]), 4.);
}

#[test]
fn count_true_counts_candidates() {
    assert_eq!(rand_elec::count_true(&vec![true, false, true]), 2);
    assert_eq!(rand_elec::count_true(&vec![]), 0);
    assert_eq!(rand_elec::count_true(&vec![false; 4]), 0);
    assert_eq!(rand_elec::count_true(&vec![true; 4]), 4);
}

#[test]
fn generators_fix_converged_state() {
    let one_of_three = vec![false, true, false];
    let singleton = vec![true];
    for mode in all_modes() {
        assert_eq!(generate(mode, &one_of_three), one_of_three);
        assert_eq!(generate(mode, &singleton), singleton);
    }
}

#[test]
fn generators_idempotent_on_converged_state() {
    let state = vec![false, false, true, false];
    for mode in all_modes() {
        let once = generate(mode, &state);
        let twice = generate(mode, &once);
        assert_eq!(once, state);
        assert_eq!(twice, state);
    }
}

#[test]
fn generators_preserve_length() {
    for mode in all_modes() {
        for n in [0usize, 2, 7, 31] {
            let state = vec![true; n];
            assert_eq!(generate(mode, &state).len(), n);
            let empty_pool = vec![false; n];
            assert_eq!(generate(mode, &empty_pool).len(), n);
        }
    }
}

#[test]
fn tournament_family_keeps_non_candidates_out() {
    let state = vec![true, true, false, false];
    for mode in [Mode::Tournament, Mode::Biased, Mode::BiasedFixed] {
        for _ in 0..50 {
            let next = generate(mode, &state);
            assert!(!next[2]);
            assert!(!next[3]);
        }
    }
}

#[test]
fn single_run_history_shape() {
    for mode in all_modes() {
        let hist = rand_elec::single_run(8, mode);
        assert!(hist.len() >= 1);
        assert_eq!(hist[0], 8);
        assert_eq!(*hist.last().unwrap(), 1);
        for &count in &hist[..hist.len() - 1] {
            assert_ne!(count, 1);
            assert!(count == 0 || count >= 2);
        }
        for &count in &hist {
            assert!(count <= 8);
        }
    }
}

#[test]
fn single_run_single_process_converges_at_once() {
    for mode in all_modes() {
        assert_eq!(rand_elec::single_run(1, mode), vec![1]);
    }
}

#[test]
fn sorted_sample_sorts_ascending() {
    let sample = vec![3, 1, 2, 2];
    assert_eq!(rand_elec::sorted_sample(&sample), vec![1, 2, 2, 3]);
    assert_eq!(rand_elec::sorted_sample(&vec![]), vec![]);
}

#[test]
fn sample_run_lengths_shape() {
    let lengths = rand_elec::sample_run_lengths(50, 5, Mode::Tournament);
    assert_eq!(lengths.len(), 50);
    for window in lengths.windows(2) {
        assert!(window[0] <= window[1]);
    }
    for &len in &lengths {
        assert!(len >= 2);
    }
}

#[test]
fn median_pair_even_and_odd() {
    assert_eq!(rand_elec::median_pair(&vec![1, 2, 3, 4, 5, 6]), (3, 4));
    assert_eq!(rand_elec::median_pair(&vec![1, 2, 3, 4, 5]), (3, 3));
    assert_eq!(rand_elec::median_pair(&vec![7]), (7, 7));
}

#[test]
fn ci_median_90_two_sided_six_samples() {
    assert_eq!(ci(&[1, 2, 3, 3, 4, 5], 0.5, Z_90_TWO_SIDED), Some((1, 5)));
}

#[test]
fn ci_single_sample_not_computable() {
    assert_eq!(ci(&[1], 0.5, Z_90_TWO_SIDED), None);
}

#[test]
fn ci_median_90_two_sided_consecutive_six() {
    assert_eq!(ci(&[1, 2, 3, 4, 5, 6], 0.5, Z_90_TWO_SIDED), Some((1, 6)));
}

#[test]
fn ci_median_90_two_sided_seven_samples() {
    assert_eq!(ci(&[1, 2, 3, 4, 5, 6, 7], 0.5, Z_90_TWO_SIDED), Some((2, 6)));
}

#[test]
fn ci_median_95_two_sided_fifteen_samples() {
    let sample = [8, 11, 12, 13, 15, 17, 19, 20, 21, 21, 22, 23, 25, 26, 28];
    assert_eq!(ci(&sample, 0.5, Z_95_TWO_SIDED), Some((13, 23)));
}

#[test]
fn ci_needs_at_least_three_samples() {
    assert_eq!(rand_elec::confidence_interval(&vec![], 1, 1), None);
    assert_eq!(rand_elec::confidence_interval(&vec![4], 1, 1), None);
    assert_eq!(rand_elec::confidence_interval(&vec![4, 5], 1, 2), None);
    assert_eq!(rand_elec::confidence_interval(&vec![4, 5, 6], 1, 3), Some((4, 6)));
}

fn empirical_median(mode: Mode) -> f64 {
    let lengths = rand_elec::sample_run_lengths(10_000, 10, mode);
    let (lo, hi) = rand_elec::median_pair(&lengths);
    (lo as f64 + hi as f64) / 2.0
}

#[test]
fn empirical_median_plausible_naive() {
    let med = empirical_median(Mode::Naive);
    assert!(med >= 10.0 && med <= 400.0, "median {med} out of plausible range");
}

#[test]
fn empirical_median_plausible_tournament() {
    let med = empirical_median(Mode::Tournament);
    assert!(med >= 2.0 && med <= 60.0, "median {med} out of plausible range");
}

#[test]
fn empirical_median_plausible_biased() {
    let med = empirical_median(Mode::Biased);
    assert!(med >= 2.0 && med <= 40.0, "median {med} out of plausible range");
}

#[test]
fn empirical_median_plausible_biased_single() {
    let med = empirical_median(Mode::BiasedSingle);
    assert!(med >= 2.0 && med <= 40.0, "median {med} out of plausible range");
}

#[test]
fn empirical_median_plausible_biased_fixed() {
    let med = empirical_median(Mode::BiasedFixed);
    assert!(med >= 2.0 && med <= 40.0, "median {med} out of plausible range");
}

#[test]
fn apply_generator_dispatches_every_mode() {
    let converged = vec![false, true, false];
    let pool = vec![true; 6];
    for mode in all_modes() {
        assert_eq!(rand_elec::apply_generator(mode, &converged), converged);
        assert_eq!(rand_elec::apply_generator(mode, &pool).len(), 6);
    }
}
