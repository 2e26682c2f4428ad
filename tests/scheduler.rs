use dwmblocksrs::scheduler::{is_due, shared_tick, Completion, Scheduler, SegmentTimer};

#[test]
fn shared_tick_is_gcd_of_intervals() {
    assert_eq!(shared_tick(&vec![Some(4000), Some(6000)]), 2000);
    assert_eq!(shared_tick(&vec![Some(4000), None, Some(6000)]), 2000);
    assert_eq!(shared_tick(&vec![Some(1500)]), 1500);
    assert_eq!(shared_tick(&vec![None, None]), 0);
    assert_eq!(shared_tick(&vec![]), 0);
    assert_eq!(shared_tick(&vec![Some(7000), Some(3000)]), 1000);
}

#[test]
fn segment_refreshes_only_when_stale() {
    let mut s = Scheduler::new(&vec![Some(4000), Some(6000)], 0);
    assert_eq!(s.tick(), 2000);
    let mut refreshed_first = Vec::new();
    for k in 1..=6u64 {
        let now = k * 2000;
        let due = s.on_tick(now);
        for &id in &due {
            s.on_done(id, now);
        }
        if due.contains(&0) {
            refreshed_first.push(now);
        }
        if now == 6000 || now == 12000 {
            assert!(due.contains(&1));
        } else {
            assert!(!due.contains(&1));
        }
    }
    assert_eq!(refreshed_first, vec![4000, 8000, 12000]);
}

#[test]
fn signal_only_segment_never_ticks() {
    let mut s = Scheduler::new(&vec![None, Some(1000)], 0);
    assert_eq!(s.on_tick(1000), vec![1]);
    assert_eq!(s.on_tick(100000), Vec::<usize>::new());
    let t = SegmentTimer { interval: None, last_update: 0, in_flight: false, rerun: false };
    assert!(!is_due(&t, u64::MAX));
}

#[test]
fn running_refresh_is_not_started_twice() {
    let mut s = Scheduler::new(&vec![Some(1000), Some(1000)], 0);
    assert_eq!(s.on_tick(1000), vec![0, 1]);
    // still running: neither the tick nor the signal starts another one
    assert_eq!(s.on_tick(2000), Vec::<usize>::new());
    assert_eq!(s.on_signal(&vec![0], 2000), Vec::<usize>::new());
    assert_eq!(s.on_done(0, 2500), Completion { restart: true, overran: true });
    assert_eq!(s.on_done(0, 2600), Completion { restart: false, overran: false });
    assert_eq!(s.on_done(1, 1500), Completion { restart: false, overran: false });
    assert_eq!(s.on_signal(&vec![1, 0], 2700), vec![1, 0]);
}

#[test]
fn signal_refresh_ignores_staleness() {
    let mut s = Scheduler::new(&vec![Some(60000), None, Some(60000)], 0);
    assert_eq!(s.on_signal(&vec![0, 2], 10), vec![0, 2]);
    s.on_done(0, 20);
    s.on_done(2, 20);
    // the signal restarted the interval
    assert_eq!(s.on_tick(60000), Vec::<usize>::new());
    assert_eq!(s.on_tick(60010), vec![0, 2]);
}
