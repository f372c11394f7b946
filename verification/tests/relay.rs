use routekit::relay::{relay, step, Action, Event, Fault, Phase};

fn inbound(texts: &[&str]) -> Vec<Event<String>> {
    texts.iter().map(|t| Event::Inbound(t.to_string())).collect()
}

#[test]
fn step_echoes_while_open() {
    let (phase, action) = step(Phase::Open, Event::Inbound("hi".to_string()));
    assert_eq!(phase, Phase::Open);
    assert!(matches!(action, Action::Send(ref m) if m == "hi"));
}

#[test]
fn step_closes_when_the_peer_closes() {
    let (phase, action) = step(Phase::Open, Event::<String>::End);
    assert_eq!(phase, Phase::Closed);
    assert!(matches!(action, Action::Close));
}

#[test]
fn step_reports_a_fault_once() {
    let (phase, action) = step(Phase::Open, Event::<String>::Failed(Fault::Write));
    assert_eq!(phase, Phase::Faulted(Fault::Write));
    assert!(matches!(action, Action::Report(Fault::Write)));
    let (phase, action) = step(phase, Event::<String>::Failed(Fault::Read));
    assert_eq!(phase, Phase::Faulted(Fault::Write));
    assert!(matches!(action, Action::Ignore));
}

#[test]
fn step_ignores_everything_once_over() {
    for over in [Phase::Closed, Phase::Faulted(Fault::Read)] {
        let (phase, action) = step(over, Event::Inbound("late".to_string()));
        assert_eq!(phase, over);
        assert!(matches!(action, Action::Ignore));
        let (phase, action) = step(over, Event::<String>::End);
        assert_eq!(phase, over);
        assert!(matches!(action, Action::Ignore));
    }
}

#[test]
fn relay_returns_every_message_in_order() {
    let (phase, out) = relay(Phase::Open, inbound(&["a", "b", "c", "a"]));
    assert_eq!(phase, Phase::Open);
    assert_eq!(out, vec!["a", "b", "c", "a"]);
    let (phase, out) = relay(Phase::Open, Vec::<Event<String>>::new());
    assert_eq!(phase, Phase::Open);
    assert!(out.is_empty());
}

#[test]
fn relay_stops_at_the_end_of_the_connection() {
    let mut events = inbound(&["a", "b"]);
    events.push(Event::End);
    events.extend(inbound(&["c"]));
    let (phase, out) = relay(Phase::Open, events);
    assert_eq!(phase, Phase::Closed);
    assert_eq!(out, vec!["a", "b"]);
}

#[test]
fn relay_stops_at_a_fault() {
    let mut events = inbound(&["a"]);
    events.push(Event::Failed(Fault::Read));
    events.extend(inbound(&["b"]));
    events.push(Event::End);
    let (phase, out) = relay(Phase::Open, events);
    assert_eq!(phase, Phase::Faulted(Fault::Read));
    assert_eq!(out, vec!["a"]);
}

#[test]
fn relays_of_two_connections_are_independent() {
    let mut broken = inbound(&["x"]);
    broken.push(Event::Failed(Fault::Write));
    let (first, _) = relay(Phase::Open, broken);
    let (second, out) = relay(Phase::Open, inbound(&["y", "z"]));
    assert_eq!(first, Phase::Faulted(Fault::Write));
    assert_eq!(second, Phase::Open);
    assert_eq!(out, vec!["y", "z"]);
}

#[test]
fn relay_carries_any_message_type() {
    let events = vec![Event::Inbound(vec![0u8, 255]), Event::Inbound(Vec::new())];
    let (_, out) = relay(Phase::Open, events);
    assert_eq!(out, vec![vec![0u8, 255], Vec::new()]);
}
