use cranker_connector::backoff::{back_out, BACK_OUT_BASE, MAX_BACK_OUT};

#[test]
fn test_back_out() {
    assert_eq!(back_out(1), 502);
    assert_eq!(back_out(2), 504);
    assert_eq!(back_out(10), 1524);
    assert_eq!(back_out(14), 10500);
    assert_eq!(back_out(2343), 10500);
}

#[test]
fn back_out_first_attempt_waits_one_millisecond_over_base() {
    assert_eq!(back_out(0), 501);
}

#[test]
fn back_out_last_uncapped_attempt() {
    assert_eq!(back_out(13), 500 + 8192);
}

#[test]
fn back_out_largest_attempt_is_capped() {
    assert_eq!(back_out(u32::MAX), BACK_OUT_BASE + MAX_BACK_OUT);
}

#[test]
fn back_out_never_shrinks_and_stays_in_bounds() {
    let mut previous = back_out(0);
    for attempts in 0..100u32 {
        let delay = back_out(attempts);
        assert!(delay >= previous);
        assert!(delay >= BACK_OUT_BASE + 1);
        assert!(delay <= BACK_OUT_BASE + MAX_BACK_OUT);
        previous = delay;
    }
}
