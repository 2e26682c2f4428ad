use dwmblocksrs::segments::constant::Constant;
use dwmblocksrs::segments::Segment;
use dwmblocksrs::signals::{convert_signal_offsets, SignalRouter};

fn segment_with(signals: Vec<i32>) -> Segment<Constant> {
    let mut s = Segment::new(Constant::new("s".into()), None, vec![]).unwrap();
    s.signals = signals;
    s
}

#[test]
fn signal_fans_out_to_subscribers() {
    let segments = vec![
        segment_with(vec![40]),
        segment_with(vec![41]),
        segment_with(vec![41, 40]),
    ];
    let router = SignalRouter::new(&segments);
    assert_eq!(router.route(40), vec![0, 2]);
    assert_eq!(router.route(41), vec![1, 2]);
    assert_eq!(router.route(42), Vec::<usize>::new());
    assert_eq!(router.used_signals(), &vec![40, 41]);
}

#[test]
fn repeated_subscription_routes_once() {
    let segments = vec![segment_with(vec![35, 35]), segment_with(vec![])];
    let router = SignalRouter::new(&segments);
    assert_eq!(router.route(35), vec![0]);
    assert_eq!(router.used_signals(), &vec![35]);
}

#[test]
fn no_signals_no_routes() {
    let segments = vec![segment_with(vec![]), segment_with(vec![])];
    let router = SignalRouter::new(&segments);
    assert!(router.used_signals().is_empty());
    assert!(router.route(34).is_empty());
}

#[test]
fn offsets_resolve_from_first_realtime_signal() {
    assert_eq!(convert_signal_offsets(&vec![0, 2, 30], 34, 64), Ok(vec![34, 36, 64]));
    assert_eq!(convert_signal_offsets(&vec![], 34, 64), Ok(vec![]));
}

#[test]
fn offset_past_last_realtime_signal_is_refused() {
    assert_eq!(
        convert_signal_offsets(&vec![0, 31], 34, 64),
        Err("A used signal is greater than SIGRTMAX.".to_string())
    );
    assert!(convert_signal_offsets(&vec![u32::MAX], 34, 64).is_err());
}
