use battle_instinct::pad::{after_probe, probe_order, should_probe, PadPoll};

#[test]
fn pad_poll_backs_off_after_no_answer() {
    let mut p = PadPoll::new();
    assert!(should_probe(&mut p));
    assert_eq!(probe_order(&p), vec![0, 1, 2]);
    p = after_probe(p, None);
    assert_eq!(p.countdown, 300);
    for _ in 0..300 {
        assert!(!should_probe(&mut p));
    }
    assert!(should_probe(&mut p));
    p = after_probe(p, Some(2));
    assert_eq!(p, PadPoll { countdown: 0, latest_idx: 2 });
    assert_eq!(probe_order(&p), vec![2, 0, 1]);
}
