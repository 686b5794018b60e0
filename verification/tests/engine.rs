use cannabis_fibonacci::{CannabisStrain, FibError, RandyCannabisFibonacci};

#[test]
fn test_basic_fibonacci() {
    let mut calc = RandyCannabisFibonacci::new(CannabisStrain::Hybrid);
    assert_eq!(calc.plant_spirit_fibonacci(0).unwrap(), 0);
    assert_eq!(calc.plant_spirit_fibonacci(1).unwrap(), 1);
    assert_eq!(calc.plant_spirit_fibonacci(2).unwrap(), 1);
    assert_eq!(calc.plant_spirit_fibonacci(3).unwrap(), 2);
}

#[test]
fn test_sequence_generation() {
    let mut calc = RandyCannabisFibonacci::new(CannabisStrain::Sativa);
    let sequence = calc.generate_sequence(5).unwrap();
    assert_eq!(sequence.len(), 5);
}

#[test]
fn test_overflow_protection() {
    let mut calc = RandyCannabisFibonacci::new(CannabisStrain::Hybrid);
    assert!(calc.plant_spirit_fibonacci(200).is_err());
}

#[test]
fn hybrid_tenth_term_is_55() {
    let mut calc = RandyCannabisFibonacci::new(CannabisStrain::Hybrid);
    assert_eq!(calc.plant_spirit_fibonacci(10).unwrap(), 55);
}

#[test]
fn hybrid_matches_standard_fibonacci_up_to_bound() {
    let mut calc = RandyCannabisFibonacci::new(CannabisStrain::Hybrid);
    let mut a: u128 = 0;
    let mut b: u128 = 1;
    for n in 0..=186u64 {
        assert_eq!(calc.plant_spirit_fibonacci(n).unwrap(), a);
        let next = a + b;
        a = b;
        b = next;
    }
    assert_eq!(
        calc.plant_spirit_fibonacci(186).unwrap(),
        332825110087067562321196029789634457848u128
    );
}

#[test]
fn bound_is_sharp() {
    let mut calc = RandyCannabisFibonacci::new(CannabisStrain::Hybrid);
    assert!(calc.plant_spirit_fibonacci(186).is_ok());
    assert_eq!(calc.plant_spirit_fibonacci(187), Err(FibError::OverflowRisk));
}

#[test]
fn sativa_follows_distorted_recurrence() {
    // a(n) = floor((a(n-1) + a(n-2)) * 6 / 5) gives 0, 1, 1, 2, 3, 6, 10, 19.
    let mut calc = RandyCannabisFibonacci::new(CannabisStrain::Sativa);
    let sequence = calc.generate_sequence(8).unwrap();
    assert_eq!(sequence, vec![0, 1, 1, 2, 3, 6, 10, 19]);
}

#[test]
fn indica_collapses_to_zero() {
    // a(n) = floor((a(n-1) + a(n-2)) * 4 / 5) gives 0, 1, 0, 0, 0, ...
    let mut calc = RandyCannabisFibonacci::new(CannabisStrain::Indica);
    let sequence = calc.generate_sequence(6).unwrap();
    assert_eq!(sequence, vec![0, 1, 0, 0, 0, 0]);
}

#[test]
fn sequence_matches_single_computations() {
    let mut seq_calc = RandyCannabisFibonacci::new(CannabisStrain::Sativa);
    let sequence = seq_calc.generate_sequence(20).unwrap();
    assert_eq!(sequence.len(), 20);
    let mut single_calc = RandyCannabisFibonacci::new(CannabisStrain::Sativa);
    for (i, value) in sequence.iter().enumerate() {
        assert_eq!(single_calc.plant_spirit_fibonacci(i as u64).unwrap(), *value);
    }
}

#[test]
fn sequence_length_limit() {
    let mut calc = RandyCannabisFibonacci::new(CannabisStrain::Hybrid);
    assert_eq!(calc.generate_sequence(187).unwrap().len(), 187);
    assert_eq!(calc.generate_sequence(188), Err(FibError::OverflowRisk));
}

#[test]
fn empty_range_is_invalid() {
    let mut calc = RandyCannabisFibonacci::new(CannabisStrain::Hybrid);
    assert_eq!(calc.parallel_fibonacci_range(5, 5), Err(FibError::InvalidRange));
    assert_eq!(calc.parallel_fibonacci_range(7, 3), Err(FibError::InvalidRange));
}

#[test]
fn small_range_has_exact_entries() {
    let mut calc = RandyCannabisFibonacci::new(CannabisStrain::Hybrid);
    let results = calc.parallel_fibonacci_range(0, 3).unwrap();
    assert_eq!(results.len(), 3);
    assert_eq!(results.get(&0), Some(&0));
    assert_eq!(results.get(&1), Some(&1));
    assert_eq!(results.get(&2), Some(&1));
}

#[test]
fn range_matches_single_computations() {
    let mut range_calc = RandyCannabisFibonacci::new(CannabisStrain::Sativa);
    let results = range_calc.parallel_fibonacci_range(20, 41).unwrap();
    assert_eq!(results.len(), 21);
    let mut single_calc = RandyCannabisFibonacci::new(CannabisStrain::Sativa);
    for n in 20..41u64 {
        let expected = single_calc.plant_spirit_fibonacci(n).unwrap();
        assert_eq!(results.get(&n), Some(&expected));
    }
}

#[test]
fn range_omits_uncomputable_indices() {
    let mut calc = RandyCannabisFibonacci::new(CannabisStrain::Hybrid);
    let results = calc.parallel_fibonacci_range(180, 190).unwrap();
    assert_eq!(results.len(), 7);
    for n in 180..=186u64 {
        assert!(results.contains_key(&n));
    }
    for n in 187..190u64 {
        assert!(!results.contains_key(&n));
    }
}

#[test]
fn ratio_pairs_skip_zero_denominators() {
    // The Indica sequence is 0, 1, 0, 0, 0: only the pair over the
    // nonzero denominator at index 1 survives.
    let mut calc = RandyCannabisFibonacci::new(CannabisStrain::Indica);
    let ratios = calc.golden_ratio_analysis(5).unwrap();
    assert_eq!(ratios, vec![(0, 1)]);
}

#[test]
fn ratio_pairs_follow_the_sequence() {
    // The Hybrid sequence is 0, 1, 1, 2, 3, 5; the first pair is skipped
    // because its denominator term is 0.
    let mut calc = RandyCannabisFibonacci::new(CannabisStrain::Hybrid);
    let ratios = calc.golden_ratio_analysis(6).unwrap();
    assert_eq!(ratios, vec![(1, 1), (2, 1), (3, 2), (5, 3)]);
}

#[test]
fn ratio_pairs_error_past_bound() {
    let mut calc = RandyCannabisFibonacci::new(CannabisStrain::Hybrid);
    assert_eq!(calc.golden_ratio_analysis(188), Err(FibError::OverflowRisk));
}

#[test]
fn engine_reports_strain_name() {
    let calc = RandyCannabisFibonacci::new(CannabisStrain::Sativa);
    assert_eq!(calc.strain_name(), "Sativa");
}
