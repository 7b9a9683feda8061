use concurrently::control::{ControlAction, ControlListener};
use concurrently::message::MessageType;

#[test]
fn reaction_table() {
    let cases = [
        (MessageType::KillAll, ControlAction::Shutdown { broadcast_kill: true, exit_code: 0 }),
        (MessageType::KillOthers, ControlAction::Shutdown { broadcast_kill: true, exit_code: 0 }),
        (MessageType::KillAllOnError, ControlAction::Shutdown { broadcast_kill: true, exit_code: 1 }),
        (MessageType::Complete, ControlAction::Shutdown { broadcast_kill: false, exit_code: 0 }),
        (MessageType::Text, ControlAction::Ignore),
        (MessageType::Error, ControlAction::Ignore),
        (MessageType::Kill, ControlAction::Ignore),
    ];
    for (t, expected) in cases {
        let mut l = ControlListener::new();
        assert_eq!(l.handle(t), expected);
    }
}

#[test]
fn simultaneous_completions_cascade_once() {
    let mut l = ControlListener::new();
    assert!(!l.is_stopping());
    assert_eq!(l.exit_code(), 0);
    assert_eq!(l.handle(MessageType::KillOthers), ControlAction::Shutdown { broadcast_kill: true, exit_code: 0 });
    assert_eq!(l.handle(MessageType::KillOthers), ControlAction::Ignore);
    assert_eq!(l.handle(MessageType::KillAllOnError), ControlAction::Ignore);
    assert!(l.is_stopping());
    assert_eq!(l.exit_code(), 0);
}

#[test]
fn failure_cascade_exits_with_one() {
    let mut l = ControlListener::new();
    l.handle(MessageType::Text);
    l.handle(MessageType::KillAllOnError);
    l.handle(MessageType::Complete);
    assert_eq!(l.exit_code(), 1);
}
