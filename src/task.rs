//! The task supervisor: the decisions of one task's life, from launch with
//! retries on spawn failure, through streaming its output, to its outcome.
//!
//! The supervisor is a state machine. The caller performs each action it
//! asks for (launch the process, wait and launch again, read the next line)
//! and reports what happened as an event; the supervisor answers with the
//! messages to publish and the next action.
//!
//! Only a failed launch counts as failure: it is retried while the budget
//! lasts and may stop the whole run. A process that launched and exits with
//! a nonzero code is a completion like any other; its code is passed on but
//! neither retried nor treated as a failure.

use crate::command::Process;
use crate::message::{
    build_message_sender, red_text, reddened, sender_type_label, Message, MessageSender,
    MessageType, SenderType,
};
use chrono_humanize::{Accuracy, HumanTime, Tense};
use vstd::prelude::*;
use vstd::string::*;

verus! {

/// Where a task stands in its life.
#[derive(Debug, Clone, Copy, PartialEq, Eq, Structural)]
pub enum TaskPhase {
    /// Waiting for the outcome of a launch attempt.
    Launching,
    /// The process runs; waiting for output or its exit.
    Streaming,
    /// The task has its outcome.
    Finished,
}

/// What happened to the task since the last step.
#[derive(Debug, Clone)]
pub enum TaskEvent {
    /// The process could not be launched; the text describes why.
    SpawnFailed(String),
    /// The process was launched.
    Spawned,
    /// The process wrote a line of output.
    Line(String),
    /// The process's output ended and it exited, with its exit code if any.
    Exited(Option<i32>),
}

/// What the caller is to do next for the task.
#[derive(Debug, Clone, Copy, PartialEq, Eq, Structural)]
pub enum TaskAction {
    /// Launch the process.
    Launch,
    /// Wait this many milliseconds, then launch the process again.
    RetryAfter(u64),
    /// Read the next line of output, or wait for the exit.
    ReadOutput,
    /// The task is over, with this exit code.
    Finish(i32),
}

/// The answer to one event: messages for the data channel, messages for
/// the control channel, and the next action.
#[derive(Debug)]
pub struct TaskStep {
    pub data: Vec<Message>,
    pub control: Vec<Message>,
    pub action: TaskAction,
}

/// The supervisor of one task.
#[derive(Debug)]
pub struct Task {
    pub process: Process,
    restart_after: i64,
    kill_others_on_fail: bool,
    kill_others: bool,
    restart_attempts: i64,
    exit_code: Option<i32>,
    signature: MessageSender,
    phase: TaskPhase,
}

/// The English text for a delay of `ms` milliseconds.
pub uninterp spec fn relative_time(ms: int) -> Seq<char>;

/// Relies on chrono's `Duration::milliseconds` and chrono_humanize's
/// `HumanTime::to_text_en`: the precise English text of the delay, which
/// depends on the delay alone.
#[verifier::external_body]
fn get_relative_time_from_ms(ms: i64) -> (r: String)
    requires
        ms >= 0,
    ensures
        r@ == relative_time(ms as int),
{
    HumanTime::from(chrono::Duration::milliseconds(ms)).to_text_en(Accuracy::Precise, Tense::Present)
}

/// The error text for a failed launch.
pub open spec fn spawn_error_text(reason: Seq<char>) -> Seq<char> {
    reddened("Encountered an Error"@) + ": "@ + reddened(reason)
}

/// The notice that a launch is retried after `ms` milliseconds.
pub open spec fn retry_text(ms: int) -> Seq<char> {
    reddened("Process failed to start, retrying in "@) + relative_time(ms)
}

/// The error text once no attempt is left.
pub open spec fn gave_up_text() -> Seq<char> {
    reddened("Encountered an Error: Could not start process."@)
}

/// The status text once the process has exited.
pub open spec fn done_text() -> Seq<char> {
    "Done!"@
}

/// The sender descriptor of a task's status messages.
pub open spec fn is_task_signature(s: MessageSender) -> bool {
    s.type_ == SenderType::Task && s.index is None && s.name@ == sender_type_label(SenderType::Task)
}

/// The sender descriptor of a task's output lines.
pub open spec fn is_output_sender(s: MessageSender, p: Process) -> bool {
    s.type_ == SenderType::Process && s.index == Some(p.index) && s.name@ == p.name@
}

/// `m` is a control message of kind `t` from a task.
pub open spec fn control_is(m: Message, t: MessageType) -> bool {
    m.type_ == t && m.name@.len() == 0 && m.data@.len() == 0 && is_task_signature(m.sender)
}

/// `m` is an error message with the given text about task `p`.
pub open spec fn error_is(m: Message, p: Process, text: Seq<char>) -> bool {
    m.type_ == MessageType::Error && m.name@ == p.name@ && m.data@ == text && is_task_signature(
        m.sender,
    )
}

impl Task {
    /// The task's command.
    pub closed spec fn process_of(&self) -> Process {
        self.process
    }

    /// The retry budget left.
    pub closed spec fn attempts_left(&self) -> int {
        self.restart_attempts as int
    }

    /// The delay between launch attempts, in milliseconds.
    pub closed spec fn delay(&self) -> int {
        self.restart_after as int
    }

    /// Whether a task whose retries run out asks for all others to stop.
    pub closed spec fn stops_all_on_failure(&self) -> bool {
        self.kill_others_on_fail
    }

    /// Whether a task that completes asks for all others to stop.
    pub closed spec fn stops_others_on_exit(&self) -> bool {
        self.kill_others
    }

    /// Where the task stands.
    pub closed spec fn phase_of(&self) -> TaskPhase {
        self.phase
    }

    /// The exit code, once the process has exited.
    pub closed spec fn exit_code_of(&self) -> Option<i32> {
        self.exit_code
    }

    /// The task is well formed: its budget and delay are not negative, its
    /// status messages carry the task signature, and it has no exit code
    /// before it finishes.
    pub closed spec fn wf(&self) -> bool {
        &&& self.restart_attempts >= 0
        &&& self.restart_after >= 0
        &&& is_task_signature(self.signature)
        &&& self.phase != TaskPhase::Finished ==> self.exit_code is None
    }

    /// A supervisor for `process` that retries a failed launch up to
    /// `restart_attempts` times, `restart_after` milliseconds apart.
    pub fn new(
        process: Process,
        restart_after: i64,
        kill_others_on_fail: bool,
        kill_others: bool,
        restart_attempts: i64,
    ) -> (r: Task)
        requires
            restart_after >= 0,
            restart_attempts >= 0,
        ensures
            r.wf(),
            r.process_of() == process,
            r.attempts_left() == restart_attempts,
            r.delay() == restart_after,
            r.stops_all_on_failure() == kill_others_on_fail,
            r.stops_others_on_exit() == kill_others,
            r.phase_of() == TaskPhase::Launching,
            r.exit_code_of() is None,
    {
        Task {
            process,
            restart_after,
            kill_others_on_fail,
            kill_others,
            restart_attempts,
            exit_code: None,
            signature: build_message_sender(SenderType::Task, None, None),
            phase: TaskPhase::Launching,
        }
    }

    /// What the task waits for in its current phase.
    pub open spec fn awaited(&self) -> TaskAction {
        match self.phase_of() {
            TaskPhase::Launching => TaskAction::Launch,
            TaskPhase::Streaming => TaskAction::ReadOutput,
            TaskPhase::Finished => TaskAction::Finish(
                match self.exit_code_of() {
                    Some(c) => c,
                    None => 1,
                },
            ),
        }
    }

    /// The action the task waits for: for a new task, the launch of its
    /// process.
    pub fn start(&self) -> (r: TaskAction)
        ensures
            r == self.awaited(),
    {
        match self.phase {
            TaskPhase::Launching => TaskAction::Launch,
            TaskPhase::Streaming => TaskAction::ReadOutput,
            TaskPhase::Finished => TaskAction::Finish(match self.exit_code {
                Some(c) => c,
                None => 1,
            }),
        }
    }

    /// The exit code, once the process has exited.
    pub fn exit_code(&self) -> (r: Option<i32>)
        ensures
            r == self.exit_code_of(),
    {
        self.exit_code
    }

    /// Where the task stands.
    pub fn phase(&self) -> (r: TaskPhase)
        ensures
            r == self.phase_of(),
    {
        self.phase
    }

    /// An error message about the supervised process.
    pub fn send_error(&self, error: String) -> (r: Message)
        requires
            self.wf(),
        ensures
            error_is(r, self.process_of(), error@),
    {
        Message::new(
            MessageType::Error,
            Some(self.process.name.clone()),
            Some(error),
            None,
            self.signature.duplicate(),
        )
    }

    /// The answer to `event`: what to publish and what to do next.
    ///
    /// A failed launch is reported; while attempts are left the launch is
    /// retried after the delay, else the task finishes with code 1 (and asks
    /// all tasks to stop, where that policy is set). Each non-empty output
    /// line of a visible task is published. At the exit, a visible task
    /// publishes its status, the task finishes with the exit code (-1 if
    /// none), and asks the other tasks to stop, where that policy is set.
    /// An event that the phase does not await changes nothing.
    pub fn on_event(&mut self, event: TaskEvent) -> (r: TaskStep)
        requires
            old(self).wf(),
        ensures
            final(self).wf(),
            final(self).process_of() == old(self).process_of(),
            final(self).delay() == old(self).delay(),
            final(self).stops_all_on_failure() == old(self).stops_all_on_failure(),
            final(self).stops_others_on_exit() == old(self).stops_others_on_exit(),
            ({
                let p = old(self).process_of();
                match (old(self).phase_of(), event) {
                    (TaskPhase::Launching, TaskEvent::SpawnFailed(reason)) => {
                        &&& r.data@.len() == 2
                        &&& error_is(r.data@[0], p, spawn_error_text(reason@))
                        &&& if old(self).attempts_left() > 0 {
                            &&& final(self).attempts_left() == old(self).attempts_left() - 1
                            &&& final(self).phase_of() == TaskPhase::Launching
                            &&& final(self).exit_code_of() is None
                            &&& r.action == TaskAction::RetryAfter(old(self).delay() as u64)
                            &&& error_is(r.data@[1], p, retry_text(old(self).delay()))
                            &&& r.control@.len() == 0
                        } else {
                            &&& final(self).attempts_left() == 0
                            &&& final(self).phase_of() == TaskPhase::Finished
                            &&& final(self).exit_code_of() is None
                            &&& r.action == TaskAction::Finish(1)
                            &&& error_is(r.data@[1], p, gave_up_text())
                            &&& if old(self).stops_all_on_failure() {
                                r.control@.len() == 1 && control_is(
                                    r.control@[0],
                                    MessageType::KillAllOnError,
                                )
                            } else {
                                r.control@.len() == 0
                            }
                        }
                    },
                    (TaskPhase::Launching, TaskEvent::Spawned) => {
                        &&& final(self).attempts_left() == old(self).attempts_left()
                        &&& final(self).phase_of() == TaskPhase::Streaming
                        &&& final(self).exit_code_of() is None
                        &&& r.action == TaskAction::ReadOutput
                        &&& r.data@.len() == 0
                        &&& r.control@.len() == 0
                    },
                    (TaskPhase::Streaming, TaskEvent::Line(line)) => {
                        &&& *final(self) == *old(self)
                        &&& r.action == TaskAction::ReadOutput
                        &&& r.control@.len() == 0
                        &&& if !p.hidden && line@.len() > 0 {
                            &&& r.data@.len() == 1
                            &&& r.data@[0].type_ == MessageType::Text
                            &&& r.data@[0].name@ == p.name@
                            &&& r.data@[0].data@ == line@
                            &&& r.data@[0].color == p.color
                            &&& is_output_sender(r.data@[0].sender, p)
                        } else {
                            r.data@.len() == 0
                        }
                    },
                    (TaskPhase::Streaming, TaskEvent::Exited(code)) => {
                        let c: i32 = match code {
                            Some(c) => c,
                            None => -1i32,
                        };
                        &&& final(self).attempts_left() == old(self).attempts_left()
                        &&& final(self).phase_of() == TaskPhase::Finished
                        &&& final(self).exit_code_of() == Some(c)
                        &&& r.action == TaskAction::Finish(c)
                        &&& if p.hidden {
                            r.data@.len() == 0
                        } else {
                            &&& r.data@.len() == 1
                            &&& r.data@[0].type_ == MessageType::Text
                            &&& r.data@[0].name@ == p.name@
                            &&& r.data@[0].data@ == done_text()
                            &&& r.data@[0].color == p.color
                            &&& is_task_signature(r.data@[0].sender)
                        }
                        &&& if old(self).stops_others_on_exit() {
                            r.control@.len() == 1 && control_is(
                                r.control@[0],
                                MessageType::KillOthers,
                            )
                        } else {
                            r.control@.len() == 0
                        }
                    },
                    _ => {
                        &&& *final(self) == *old(self)
                        &&& r.action == old(self).awaited()
                        &&& r.data@.len() == 0
                        &&& r.control@.len() == 0
                    },
                }
            }),
    {
        let mut data: Vec<Message> = Vec::new();
        let mut control: Vec<Message> = Vec::new();
        match (self.phase, event) {
            (TaskPhase::Launching, TaskEvent::SpawnFailed(reason)) => {
                let head = red_text("Encountered an Error");
                let text = head.concat(": ").concat(red_text(reason.as_str()).as_str());
                proof {
                    reveal_strlit(": ");
                }
                data.push(self.send_error(text));
                if self.restart_attempts > 0 {
                    let notice = red_text("Process failed to start, retrying in ");
                    let when = get_relative_time_from_ms(self.restart_after);
                    data.push(self.send_error(notice.concat(when.as_str())));
                    self.restart_attempts = self.restart_attempts - 1;
                    TaskStep { data, control, action: TaskAction::RetryAfter(self.restart_after as u64) }
                } else {
                    data.push(self.send_error(red_text("Encountered an Error: Could not start process.")));
                    if self.kill_others_on_fail {
                        control.push(self.control(MessageType::KillAllOnError));
                    }
                    self.phase = TaskPhase::Finished;
                    TaskStep { data, control, action: TaskAction::Finish(1) }
                }
            },
            (TaskPhase::Launching, TaskEvent::Spawned) => {
                self.phase = TaskPhase::Streaming;
                TaskStep { data, control, action: TaskAction::ReadOutput }
            },
            (TaskPhase::Streaming, TaskEvent::Line(line)) => {
                if !self.process.hidden && line.as_str().unicode_len() > 0 {
                    let sender = build_message_sender(
                        SenderType::Process,
                        Some(self.process.index),
                        Some(self.process.name.clone()),
                    );
                    data.push(
                        Message::new(
                            MessageType::Text,
                            Some(self.process.name.clone()),
                            Some(line),
                            Some(self.process.color),
                            sender,
                        ),
                    );
                }
                TaskStep { data, control, action: TaskAction::ReadOutput }
            },
            (TaskPhase::Streaming, TaskEvent::Exited(code)) => {
                let c: i32 = match code {
                    Some(c) => c,
                    None => -1,
                };
                self.exit_code = Some(c);
                self.phase = TaskPhase::Finished;
                if !self.process.hidden {
                    data.push(
                        Message::new(
                            MessageType::Text,
                            Some(self.process.name.clone()),
                            Some(String::from_str("Done!")),
                            Some(self.process.color),
                            self.signature.duplicate(),
                        ),
                    );
                }
                if self.kill_others {
                    control.push(self.control(MessageType::KillOthers));
                }
                TaskStep { data, control, action: TaskAction::Finish(c) }
            },
            _ => TaskStep { data, control, action: self.start() },
        }
    }

    /// `message` as it is published: withheld for a hidden task.
    pub fn send_message(&self, message: Message) -> (r: Option<Message>)
        ensures
            r == (if self.process_of().hidden {
                None
            } else {
                Some(message)
            }),
    {
        if self.process.hidden {
            None
        } else {
            Some(message)
        }
    }

    /// A control message of kind `t` from the supervisor.
    fn control(&self, t: MessageType) -> (r: Message)
        requires
            self.wf(),
        ensures
            control_is(r, t),
    {
        Message::new(t, None, None, None, self.signature.duplicate())
    }
}

} // verus!
