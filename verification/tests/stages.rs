use htlc_escrow::stages::{current_stage, is_non_decreasing};

#[test]
fn stage_never_goes_back() {
    let deadlines: Vec<u64> = vec![10, 20, 20, 35, 50];
    let mut last = 0u32;
    for now in 0..70u64 {
        let stage = current_stage(&deadlines, now);
        assert!(stage >= last);
        assert!(stage < 5);
        last = stage;
    }
    assert_eq!(last, 4);
}

#[test]
fn each_time_has_exactly_the_stage_of_its_window() {
    let deadlines: Vec<u64> = vec![10, 20, 30, 40, 50];
    for now in 0..70u64 {
        let stage = current_stage(&deadlines, now) as usize;
        for k in 0..5usize {
            let lower = k == 0 || deadlines[k] <= now;
            let upper = k == 4 || now < deadlines[k + 1];
            assert_eq!(stage == k, lower && upper);
        }
    }
}

#[test]
fn empty_window_is_skipped() {
    let deadlines: Vec<u64> = vec![10, 20, 20, 35, 50];
    assert_eq!(current_stage(&deadlines, 19), 0);
    assert_eq!(current_stage(&deadlines, 20), 2);
    assert_eq!(current_stage(&deadlines, 34), 2);
    assert_eq!(current_stage(&deadlines, 35), 3);
    assert_eq!(current_stage(&deadlines, 50), 4);
}

#[test]
fn stage_of_short_sequences() {
    assert_eq!(current_stage(&Vec::new(), 5), 0);
    assert_eq!(current_stage(&vec![100], 5), 0);
    assert_eq!(current_stage(&vec![100], 500), 0);
    assert_eq!(current_stage(&vec![0, 7], 6), 0);
    assert_eq!(current_stage(&vec![0, 7], 7), 1);
}

#[test]
fn non_decreasing_sequences_are_recognised() {
    assert!(is_non_decreasing(&Vec::new()));
    assert!(is_non_decreasing(&vec![3]));
    assert!(is_non_decreasing(&vec![0, 100, 200, 300, 400]));
    assert!(is_non_decreasing(&vec![1, 1, 1]));
    assert!(!is_non_decreasing(&vec![0, 100, 99]));
    assert!(!is_non_decreasing(&vec![5, 4, 6, 7, 8]));
}
