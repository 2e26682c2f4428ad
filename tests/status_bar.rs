use dwmblocksrs::segments::constant::Constant;
use dwmblocksrs::segments::Segment;
use dwmblocksrs::status_bar::StatusBar;

#[test]
fn status_joins_segments_in_order() {
    let bar = StatusBar::new(vec!["a|".into(), "".into(), "b".into()]);
    assert_eq!(bar.current_text(), "a|b");
}

#[test]
fn identical_results_publish_once() {
    let mut bar = StatusBar::new(vec!["x".into(), "y".into()]);
    let mut published = Vec::new();
    for _ in 0..5 {
        if let Some(t) = bar.update_segment(1, "z".into()) {
            published.push(t);
        }
    }
    assert_eq!(published, vec!["xz".to_string()]);
}

#[test]
fn unchanged_status_is_not_published() {
    let mut bar = StatusBar::new(vec!["ab".into(), "c".into()]);
    assert_eq!(bar.update_segment(0, "ab".into()), None);
    // the joined text is the same even though the parts moved
    let mut bar = StatusBar::new(vec!["a".into(), "bc".into()]);
    assert_eq!(bar.update_segment(0, "ab".into()), Some("abbc".into()));
    assert_eq!(bar.update_segment(1, "c".into()), Some("abc".into()));
    assert_eq!(bar.update_segment(0, "a".into()), Some("ac".into()));
}

#[test]
fn end_to_end_constants() {
    let mut segments = vec![
        Segment::new(Constant::new("A".into()), None, vec![]).unwrap(),
        Segment::new(Constant::new("B".into()), None, vec![]).unwrap(),
    ];
    let texts: Vec<String> = segments.iter_mut().map(|s| s.compute_value()).collect();
    let mut bar = StatusBar::new(texts);
    assert_eq!(bar.current_text(), "AB");

    let first = segments.remove(0);
    let (mut first, _) = first.replace_kind(Constant::new("Z".into()));
    let mut published = Vec::new();
    let text = first.compute_value();
    if let Some(t) = bar.update_segment(0, text) {
        published.push(t);
    }
    let again = first.compute_value();
    if let Some(t) = bar.update_segment(0, again) {
        published.push(t);
    }
    assert_eq!(bar.current_text(), "ZB");
    assert_eq!(published, vec!["ZB".to_string()]);
}
