use authenticate_ntlm::clock::seconds;
use authenticate_ntlm::now;

#[test]
fn a_clock_before_the_epoch_says_zero_and_one_beyond_the_type_says_the_most() {
    assert_eq!(seconds(None), 0);
    assert_eq!(seconds(Some(1_800_000_000)), 1_800_000_000);
    assert_eq!(seconds(Some(i64::MAX as u64)), i64::MAX);
    assert_eq!(seconds(Some(i64::MAX as u64 + 1)), i64::MAX);
    assert_eq!(seconds(Some(u64::MAX)), i64::MAX);
}

#[test]
fn now_is_well_after_the_epoch() {
    assert!(now() > 1_600_000_000);
}
