use concurrently::command::Process;
use concurrently::control::{ControlAction, ControlListener};
use concurrently::message::{Color, MessageType, SenderType};
use concurrently::scheduler::{parse_max_processes, resolve_max_processes, CapError, Scheduler, UNBOUNDED};
use concurrently::task::{Task, TaskAction, TaskEvent, TaskPhase};

const GREEN: Color = Color { r: 0, g: 255, b: 0 };

fn process(cmd: &str, index: usize, hidden: bool) -> Process {
    Process::new(cmd.to_string(), None, index, None, 10, GREEN, "%H".to_string(), hidden, 1)
}

fn task(cmd: &str, index: usize, retries: i64, kill_on_fail: bool, kill_others: bool) -> Task {
    Task::new(process(cmd, index, false), 250, kill_on_fail, kill_others, retries)
}

#[test]
fn no_retries_fails_at_once() {
    let mut t = task("/no/such/binary", 0, 0, false, false);
    assert_eq!(t.start(), TaskAction::Launch);
    let step = t.on_event(TaskEvent::SpawnFailed("No such file or directory".into()));
    assert_eq!(step.action, TaskAction::Finish(1));
    assert_eq!(step.data.len(), 2);
    assert!(step.data.iter().all(|m| m.type_ == MessageType::Error));
    assert!(step.data[0].data.contains("No such file or directory"));
    assert_ne!(step.data[0].data, "Encountered an Error: No such file or directory");
    assert!(step.data[1].data.contains("Could not start process."));
    assert!(step.control.is_empty());
    assert_eq!(t.phase(), TaskPhase::Finished);
    assert_eq!(t.exit_code(), None);
}

#[test]
fn retries_wait_then_give_up() {
    let mut t = task("/no/such/binary", 0, 2, false, false);
    for _ in 0..2 {
        let step = t.on_event(TaskEvent::SpawnFailed("missing".into()));
        assert_eq!(step.action, TaskAction::RetryAfter(250));
        assert_eq!(step.data.len(), 2);
        assert!(step.data[1].data.contains("retrying in "));
        assert!(step.data[1].data.ends_with("250 ms"));
        assert_eq!(t.phase(), TaskPhase::Launching);
    }
    let step = t.on_event(TaskEvent::SpawnFailed("missing".into()));
    assert_eq!(step.action, TaskAction::Finish(1));
}

#[test]
fn launch_stream_and_exit() {
    let mut t = task("echo hi", 3, 0, false, true);
    assert_eq!(t.on_event(TaskEvent::Spawned).action, TaskAction::ReadOutput);
    let step = t.on_event(TaskEvent::Line("hi".into()));
    assert_eq!(step.data.len(), 1);
    assert_eq!(step.data[0].data, "hi");
    assert_eq!(step.data[0].sender.index, Some(3));
    assert_eq!(step.data[0].sender.type_, SenderType::Process);
    assert!(t.on_event(TaskEvent::Line(String::new())).data.is_empty());
    let step = t.on_event(TaskEvent::Exited(Some(0)));
    assert_eq!(step.action, TaskAction::Finish(0));
    assert_eq!(step.data.len(), 1);
    assert_eq!(step.data[0].data, "Done!");
    assert_eq!(step.control.len(), 1);
    assert_eq!(step.control[0].type_, MessageType::KillOthers);
    assert_eq!(t.exit_code(), Some(0));
    assert_eq!(t.start(), TaskAction::Finish(0));
}

#[test]
fn exit_without_code_is_minus_one() {
    let mut t = task("sleep 9", 0, 0, false, false);
    t.on_event(TaskEvent::Spawned);
    let step = t.on_event(TaskEvent::Exited(None));
    assert_eq!(step.action, TaskAction::Finish(-1));
    assert!(step.control.is_empty());
}

#[test]
fn events_out_of_phase_change_nothing() {
    let mut t = task("echo", 0, 0, false, false);
    let step = t.on_event(TaskEvent::Line("early".into()));
    assert_eq!(step.action, TaskAction::Launch);
    assert!(step.data.is_empty());
    assert_eq!(t.phase(), TaskPhase::Launching);
}

#[test]
fn hidden_task_is_silent_but_counted() {
    let mut sched = Scheduler::new(2);
    sched.add_task(Task::new(process("echo secret", 0, true), 0, false, false, 0));
    let mut ready = sched.take_ready();
    assert_eq!(ready.len(), 1);
    assert_eq!(sched.running_count(), 1);
    let t = &mut ready[0];
    t.on_event(TaskEvent::Spawned);
    assert!(t.on_event(TaskEvent::Line("secret".into())).data.is_empty());
    assert!(t.on_event(TaskEvent::Exited(Some(0))).data.is_empty());
    assert!(t.send_message(concurrently::message::Message::new(
        MessageType::Text, None, None, None,
        concurrently::message::build_message_sender(SenderType::Task, None, None))).is_none());
    assert!(sched.task_finished().is_some());
    assert_eq!(sched.completed_count(), 1);
}

#[test]
fn two_tasks_cap_two_complete_once() {
    let mut sched = Scheduler::new(2);
    sched.add_task(task("sleep 1 && echo A", 0, 0, false, false));
    sched.add_task(task("echo B", 1, 0, false, false));
    let ready = sched.take_ready();
    assert_eq!(ready.len(), 2);
    assert_eq!(ready[0].process.index, 0);
    assert_eq!(ready[1].process.index, 1);
    assert!(sched.take_ready().is_empty());
    assert!(sched.task_finished().is_none());
    let done = sched.task_finished().expect("complete");
    assert_eq!(done.type_, MessageType::Complete);
    assert_eq!(done.sender.type_, SenderType::Scheduler);
    assert!(sched.is_finished());
    let mut l = ControlListener::new();
    assert_eq!(l.handle(done.type_), ControlAction::Shutdown { broadcast_kill: false, exit_code: 0 });
    assert_eq!(l.exit_code(), 0);
}

#[test]
fn cap_bounds_running_tasks() {
    let mut sched = Scheduler::new(2);
    for i in 0..5 {
        sched.add_task(task("echo", i, 0, false, false));
    }
    let mut started = Vec::new();
    let mut completes = 0;
    loop {
        for t in sched.take_ready() {
            started.push(t.process.index);
        }
        assert!(sched.running_count() <= 2);
        if sched.running_count() == 0 {
            break;
        }
        if sched.task_finished().is_some() {
            completes += 1;
        }
    }
    assert_eq!(started, vec![0, 1, 2, 3, 4]);
    assert_eq!(completes, 1);
    assert_eq!(sched.completed_count(), 5);
}

#[test]
fn unbounded_cap_takes_all_in_one_pass() {
    let mut sched = Scheduler::new(UNBOUNDED);
    for i in 0..5 {
        sched.add_task(task("echo", i, 0, false, false));
    }
    assert_eq!(sched.len(), 5);
    assert_eq!(sched.take_ready().len(), 5);
    assert_eq!(sched.running_count(), 5);
}

#[test]
fn missing_binary_cascades_with_exit_one() {
    let mut sched = Scheduler::new(1);
    sched.add_task(task("/no/such/binary", 0, 0, true, false));
    sched.add_task(task("echo hi", 1, 0, true, false));
    let mut ready = sched.take_ready();
    assert_eq!(ready.len(), 1);
    let step = ready[0].on_event(TaskEvent::SpawnFailed("not found".into()));
    let errors_for_binary = step.data.iter().filter(|m| m.type_ == MessageType::Error && m.data.contains("not found")).count();
    assert_eq!(errors_for_binary, 1);
    assert_eq!(step.control.len(), 1);
    assert_eq!(step.control[0].type_, MessageType::KillAllOnError);
    let mut l = ControlListener::new();
    match l.handle(step.control[0].type_) {
        ControlAction::Shutdown { broadcast_kill, exit_code } => {
            assert!(broadcast_kill);
            assert_eq!(exit_code, 1);
            assert_eq!(sched.abort(), 1);
        }
        ControlAction::Ignore => panic!("no shutdown"),
    }
    assert!(sched.task_finished().is_none());
    assert!(sched.take_ready().is_empty());
    assert!(sched.is_finished());
    assert_eq!(l.exit_code(), 1);
}

#[test]
fn failure_without_policy_leaves_others_alone() {
    let mut t = task("/no/such/binary", 0, 0, false, false);
    let step = t.on_event(TaskEvent::SpawnFailed("not found".into()));
    assert!(step.control.is_empty());
}

#[test]
fn percentage_cap_of_eight_units() {
    assert_eq!(resolve_max_processes("50%", 8), Ok(4));
    assert_eq!(resolve_max_processes("100%", 8), Ok(8));
    assert_eq!(resolve_max_processes("33%", 3), Ok(0));
    assert_eq!(resolve_max_processes("5%0", 8), Ok(4));
    assert_eq!(resolve_max_processes("-5%", 8), Ok(0));
    assert_eq!(resolve_max_processes("-50%", 8), Err(CapError::Negative));
    assert_eq!(resolve_max_processes("x%", 8), Err(CapError::InvalidPercentage));
    assert_eq!(resolve_max_processes("2147483647%", 8), Ok(171798691));
    assert_eq!(resolve_max_processes("2147483647%", 1000), Ok(2147483647));
}

#[test]
fn numeric_cap() {
    assert_eq!(resolve_max_processes("3", 8), Ok(3));
    assert_eq!(resolve_max_processes("0", 8), Ok(0));
    assert_eq!(resolve_max_processes("-1", 8), Err(CapError::Negative));
    assert_eq!(resolve_max_processes("three", 8), Err(CapError::InvalidNumber));
    assert_eq!(parse_max_processes(&None), Ok(UNBOUNDED));
    assert_eq!(parse_max_processes(&Some("6".to_string())), Ok(6));
    assert!(parse_max_processes(&Some("100%".to_string())).unwrap() >= 1);
}
