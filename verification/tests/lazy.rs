use cannabis_fibonacci::{CannabisFibonacciIterator, CannabisStrain};

#[test]
fn test_iterator_pattern() {
    let mut iter = CannabisFibonacciIterator::new(CannabisStrain::Indica);
    let mut first_five: Vec<u128> = Vec::new();
    while first_five.len() < 5 {
        match iter.next() {
            Some(value) => first_five.push(value),
            None => break,
        }
    }
    assert_eq!(first_five.len(), 5);
}

#[test]
fn iterator_starts_at_the_base_cases() {
    let mut iter = CannabisFibonacciIterator::new(CannabisStrain::Sativa);
    assert_eq!(iter.next(), Some(0));
    assert_eq!(iter.next(), Some(1));
    assert_eq!(iter.next(), Some(1));
    assert_eq!(iter.next(), Some(2));
    assert_eq!(iter.next(), Some(3));
    assert_eq!(iter.next(), Some(6));
    assert_eq!(iter.next(), Some(10));
    assert_eq!(iter.next(), Some(19));
}

#[test]
fn iterator_is_bounded() {
    for strain in [CannabisStrain::Sativa, CannabisStrain::Indica, CannabisStrain::Hybrid] {
        let mut iter = CannabisFibonacciIterator::new(strain);
        let mut produced: usize = 0;
        while let Some(value) = iter.next() {
            assert!(value <= u128::MAX / 2);
            produced += 1;
            assert!(produced <= 100);
        }
        // For these strains the element bound is what ends the sequence.
        assert_eq!(produced, 100);
        // Once ended, the sequence stays ended.
        assert_eq!(iter.next(), None);
        assert_eq!(iter.next(), None);
    }
}
