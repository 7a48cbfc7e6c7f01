use stream_operator::publish::{progress_due, receive, PublishStep, Publisher, Receipt};

fn run(event_count: Option<usize>, steps: usize) -> Vec<PublishStep> {
    let mut p = Publisher::new(event_count);
    (0..steps).map(|_| p.step()).collect()
}

fn sends(n: usize) -> Vec<PublishStep> {
    (0..n).map(|index| PublishStep::Send { index }).collect()
}

#[test]
fn publishes_exactly_the_limit() {
    let mut expected = sends(3);
    expected.extend([PublishStep::Stop, PublishStep::Stop]);
    assert_eq!(run(Some(3), 5), expected);
    let mut expected = sends(2);
    expected.push(PublishStep::Stop);
    assert_eq!(run(Some(2), 3), expected);
}

#[test]
fn zero_limit_publishes_nothing() {
    assert_eq!(run(Some(0), 2), vec![PublishStep::Stop, PublishStep::Stop]);
}

#[test]
fn no_limit_never_stops() {
    assert_eq!(run(None, 10), sends(10));
}

#[test]
fn stopped_loop_stays_put() {
    let mut p = Publisher::new(Some(1));
    assert!(p.will_publish());
    assert_eq!(p.step(), PublishStep::Send { index: 0 });
    let before = p;
    assert!(!p.will_publish());
    assert_eq!(p.step(), PublishStep::Stop);
    assert_eq!(p, before);
    assert_eq!(p.sent, 1);
}

#[test]
fn progress_every_thousand() {
    assert!(progress_due(0));
    assert!(!progress_due(999));
    assert!(progress_due(1000));
    assert!(progress_due(5000));
    assert!(!progress_due(5001));
}

#[test]
fn consumer_counts_expected_payloads() {
    assert_eq!(receive(0, "data"), Receipt::Accepted { received: 1, report: false });
    assert_eq!(receive(999, "data"), Receipt::Accepted { received: 1000, report: true });
    assert_eq!(receive(3, "other"), Receipt::Unexpected);
    assert_eq!(receive(3, "Data"), Receipt::Unexpected);
}
