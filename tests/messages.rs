use concurrently::message::{build_message_sender, print_color, print_message, Color, Message, MessageType, SenderType};
use concurrently::messenger::{Delivery, Messenger};

const BLUE: Color = Color { r: 0, g: 0, b: 255 };

fn line(index: usize, data: &str) -> Message {
    let name = format!("t{}", index);
    Message::new(
        MessageType::Text,
        Some(name.clone()),
        Some(data.to_string()),
        Some(BLUE),
        build_message_sender(SenderType::Process, Some(index), Some(name)),
    )
}

#[test]
fn sender_names_default_to_kind() {
    assert_eq!(build_message_sender(SenderType::Process, None, None).name, "Process");
    assert_eq!(build_message_sender(SenderType::Scheduler, None, None).name, "Scheduler");
    assert_eq!(build_message_sender(SenderType::Task, None, None).name, "Task");
    assert_eq!(build_message_sender(SenderType::Other, None, None).name, "Other");
    assert_eq!(build_message_sender(SenderType::Main, Some(2), None).name, "Main");
    let s = build_message_sender(SenderType::Main, Some(2), Some("x".to_string()));
    assert_eq!(s.name, "x");
    assert_eq!(s.index, Some(2));
}

#[test]
fn message_defaults() {
    let m = Message::new(MessageType::Complete, None, None, None, build_message_sender(SenderType::Scheduler, None, None));
    assert_eq!(m.name, "");
    assert_eq!(m.data, "");
    assert_eq!(m.color, Color { r: 255, g: 255, b: 255 });
    assert_eq!(m.type_, MessageType::Complete);
    assert!(m.timestamp > 0);
}

#[test]
fn rendering_without_colour() {
    assert_eq!(print_message(SenderType::Process, "web".into(), "ready".into(), BLUE, false, true), "[web]: ready");
    assert_eq!(print_message(SenderType::Main, "web".into(), "banner".into(), BLUE, false, true), "banner");
    assert_eq!(print_message(SenderType::Process, "web".into(), "ready".into(), BLUE, true, true), "ready");
    assert_eq!(print_message(SenderType::Task, "web".into(), "Done!".into(), BLUE, true, false), "");
    assert_eq!(print_color("plain".into(), BLUE, true), "plain");
}

#[test]
fn rendering_with_colour_adds_escape_codes() {
    let painted = print_color("plain".into(), BLUE, false);
    assert_ne!(painted, "plain");
    assert!(painted.contains("plain"));
    assert!(painted.contains("\u{1b}["));
    let task = print_message(SenderType::Task, "web".into(), "Done!".into(), BLUE, false, true);
    assert_ne!(task, "[web]: Done!");
    assert!(task.starts_with("[web]: "));
    assert!(task.contains("Done!"));
}

#[test]
fn live_mode_shows_at_once() {
    let mut m = Messenger::new(false, true, 2, false);
    match m.receive(line(1, "B")) {
        Delivery::Show(s) => assert_eq!(s, "[t1]: B"),
        other => panic!("unexpected {:?}", other),
    }
    let kill = Message::new(MessageType::Kill, None, None, None, build_message_sender(SenderType::Main, None, None));
    assert!(matches!(m.receive(kill), Delivery::Stop));
}

#[test]
fn grouped_replay_orders_by_task_then_arrival() {
    let mut m = Messenger::new(false, true, 3, true);
    for (i, d) in [(2, "c1"), (0, "a1"), (1, "b1"), (0, "a2"), (2, "c2"), (1, "b2"), (7, "stray")] {
        assert!(matches!(m.receive(line(i, d)), Delivery::Held));
    }
    let unindexed = Message::new(MessageType::Complete, None, None, None, build_message_sender(SenderType::Scheduler, None, None));
    assert!(matches!(m.receive(unindexed), Delivery::Held));
    let lines = m.flush();
    assert_eq!(lines, vec!["[t0]: a1", "[t0]: a2", "[t1]: b1", "[t1]: b2", "[t2]: c1", "[t2]: c2"]);
    assert!(m.flush().is_empty());
}

#[test]
fn grouped_mode_stops_on_kill_and_takes_in_the_rest() {
    let mut m = Messenger::new(true, true, 2, true);
    m.receive(line(1, "late"));
    let kill = Message::new(MessageType::Kill, None, None, None, build_message_sender(SenderType::Main, None, None));
    assert!(matches!(m.receive(kill), Delivery::Stop));
    m.hold(line(0, "early"));
    assert_eq!(m.flush(), vec!["early", "late"]);
}
