use rover::sensor::{Acquired, Action, SensorLoop, SinkMode};

#[test]
fn connected_loop_sends_each_frame() {
    let mut l = SensorLoop::start(true);
    assert_eq!(l.mode, SinkMode::Connected);
    assert!(matches!(l.cycle(Acquired::Frame(vec![1, 2, 3])), Action::Send(b) if b == vec![1, 2, 3]));
    assert!(matches!(l.cycle(Acquired::NoFrame), Action::Skip));
    assert!(matches!(l.cycle(Acquired::Timeout), Action::Retry));
    assert!(matches!(l.cycle(Acquired::Frame(vec![4])), Action::Send(b) if b == vec![4]));
    assert!(!l.stopped);
}

#[test]
fn discard_mode_never_sends_and_keeps_acquiring() {
    let mut l = SensorLoop::start(false);
    assert_eq!(l.mode, SinkMode::Discard);
    let inputs = vec![
        Acquired::Frame(vec![9, 9]),
        Acquired::Timeout,
        Acquired::NoFrame,
        Acquired::Frame(vec![1]),
    ];
    for input in inputs {
        let a = l.cycle(input);
        assert!(!matches!(a, Action::Send(_)));
        assert!(!matches!(a, Action::Stop));
    }
    assert!(matches!(l.cycle(Acquired::Frame(vec![2])), Action::Drop));
    assert_eq!(l.mode, SinkMode::Discard);
}

#[test]
fn acquisition_failure_stops_the_loop_for_good() {
    let mut l = SensorLoop::start(true);
    assert!(matches!(l.cycle(Acquired::Failed), Action::Stop));
    assert!(l.stopped);
    assert!(matches!(l.cycle(Acquired::Frame(vec![1])), Action::Stop));
    assert!(matches!(l.cycle(Acquired::Timeout), Action::Stop));
}
