use cvardump::advisory::{advise, CountAdvice};

#[test]
fn advice_without_a_count() {
    assert_eq!(advise(0, None), CountAdvice::Agrees);
    assert_eq!(advise(17, None), CountAdvice::Agrees);
}

#[test]
fn advice_with_a_count() {
    assert_eq!(advise(2, Some(2)), CountAdvice::Agrees);
    assert_eq!(advise(1, Some(2)), CountAdvice::Fewer);
    assert_eq!(advise(3, Some(2)), CountAdvice::More);
    assert_eq!(advise(0, Some(usize::MAX)), CountAdvice::Fewer);
    assert_eq!(advise(usize::MAX, Some(0)), CountAdvice::More);
}
