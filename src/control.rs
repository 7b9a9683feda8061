//! The control channel's single consumer: how each control signal is
//! answered, and the guarantee that a run is shut down at most once.

use crate::message::MessageType;
use vstd::prelude::*;

verus! {

/// What the orchestrator does for one control message.
#[derive(Debug, Clone, Copy, PartialEq, Eq, Structural)]
pub enum ControlAction {
    /// Nothing: the message is not a control signal, or the run is already
    /// shutting down.
    Ignore,
    /// Abort the scheduler and end the run with `exit_code`, after telling
    /// every task to stop where `broadcast_kill` is set.
    Shutdown { broadcast_kill: bool, exit_code: i32 },
}

/// The answer to a control signal on a run that is still going: whether
/// the tasks are told to stop, and the exit code of the run; nothing for a
/// message that is no control signal.
pub open spec fn reaction_to(t: MessageType) -> Option<(bool, i32)> {
    match t {
        MessageType::KillAll => Some((true, 0i32)),
        MessageType::KillOthers => Some((true, 0i32)),
        MessageType::KillAllOnError => Some((true, 1i32)),
        MessageType::Complete => Some((false, 0i32)),
        _ => None,
    }
}

/// `t` ends the run.
pub open spec fn is_terminating(t: MessageType) -> bool {
    reaction_to(t) is Some
}

/// One step of the listener, whose state is the exit code once the run is
/// shutting down.
pub open spec fn listener_step(s: Option<i32>, t: MessageType) -> (Option<i32>, ControlAction) {
    match s {
        Some(_) => (s, ControlAction::Ignore),
        None => match reaction_to(t) {
            Some((b, c)) => (Some(c), ControlAction::Shutdown { broadcast_kill: b, exit_code: c }),
            None => (None, ControlAction::Ignore),
        },
    }
}

/// The listener's state after the messages `msgs`, in order.
pub open spec fn listener_run(s: Option<i32>, msgs: Seq<MessageType>) -> Option<i32>
    decreases msgs.len(),
{
    if msgs.len() == 0 {
        s
    } else {
        listener_run(listener_step(s, msgs[0]).0, msgs.skip(1))
    }
}

/// How many shutdowns the listener performs on the messages `msgs`.
pub open spec fn shutdowns(s: Option<i32>, msgs: Seq<MessageType>) -> nat
    decreases msgs.len(),
{
    if msgs.len() == 0 {
        0
    } else {
        let (next, action) = listener_step(s, msgs[0]);
        (if action is Shutdown {
            1nat
        } else {
            0nat
        }) + shutdowns(next, msgs.skip(1))
    }
}

/// The first message of `msgs` that ends the run, if any.
pub open spec fn first_terminating(msgs: Seq<MessageType>) -> Option<MessageType>
    decreases msgs.len(),
{
    if msgs.len() == 0 {
        None
    } else if is_terminating(msgs[0]) {
        Some(msgs[0])
    } else {
        first_terminating(msgs.skip(1))
    }
}

/// The control channel's consumer.
#[derive(Debug)]
pub struct ControlListener {
    exit_code: Option<i32>,
}

impl ControlListener {
    /// The listener's state: the exit code once the run is shutting down.
    pub closed spec fn state(&self) -> Option<i32> {
        self.exit_code
    }

    /// A listener on a run that is still going.
    pub fn new() -> (r: ControlListener)
        ensures
            r.state() is None,
    {
        ControlListener { exit_code: None }
    }

    /// The answer to one control message; after the first signal that ends
    /// the run, every later message is ignored.
    pub fn handle(&mut self, t: MessageType) -> (r: ControlAction)
        ensures
            (final(self).state(), r) == listener_step(old(self).state(), t),
    {
        if self.exit_code.is_some() {
            return ControlAction::Ignore;
        }
        let reaction = match t {
            MessageType::KillAll => Some((true, 0i32)),
            MessageType::KillOthers => Some((true, 0i32)),
            MessageType::KillAllOnError => Some((true, 1i32)),
            MessageType::Complete => Some((false, 0i32)),
            _ => None,
        };
        match reaction {
            Some((b, c)) => {
                self.exit_code = Some(c);
                ControlAction::Shutdown { broadcast_kill: b, exit_code: c }
            },
            None => ControlAction::Ignore,
        }
    }

    /// Whether the run is shutting down.
    pub fn is_stopping(&self) -> (r: bool)
        ensures
            r == (self.state() is Some),
    {
        self.exit_code.is_some()
    }

    /// The exit code of the run: that of the signal that ended it, or 0.
    pub fn exit_code(&self) -> (r: i32)
        ensures
            r == (match self.state() {
                Some(c) => c,
                None => 0,
            }),
    {
        match self.exit_code {
            Some(c) => c,
            None => 0,
        }
    }
}

/// Whatever control messages arrive, and in whatever order, a listener
/// shuts the run down at most once, and exactly once when any of them is a
/// signal that ends the run.
pub proof fn lemma_single_shutdown(msgs: Seq<MessageType>)
    ensures
        shutdowns(None, msgs) <= 1,
        shutdowns(None, msgs) == 1 <==> first_terminating(msgs) is Some,
    decreases msgs.len(),
{
    if msgs.len() > 0 {
        lemma_single_shutdown(msgs.skip(1));
        if is_terminating(msgs[0]) {
            let c = listener_step(None, msgs[0]).0->Some_0;
            lemma_stopped_stays(c, msgs.skip(1));
        }
    }
}

/// A listener that is shutting down performs no further shutdown and keeps
/// its exit code.
pub proof fn lemma_stopped_stays(c: i32, msgs: Seq<MessageType>)
    ensures
        shutdowns(Some(c), msgs) == 0,
        listener_run(Some(c), msgs) == Some(c),
    decreases msgs.len(),
{
    if msgs.len() > 0 {
        lemma_stopped_stays(c, msgs.skip(1));
    }
}

/// The run's exit code is decided by the first signal that ends it: 1 for
/// a task whose launch attempts ran out under the stop-all-on-failure
/// policy, 0 for an interrupt, a task that completed under the
/// stop-others policy, or natural completion.
pub proof fn lemma_exit_code_of_first_signal(msgs: Seq<MessageType>)
    ensures
        listener_run(None, msgs) == (match first_terminating(msgs) {
            Some(t) => Some(reaction_to(t)->Some_0.1),
            None => None,
        }),
        first_terminating(msgs) == Some(MessageType::KillAllOnError) ==> listener_run(None, msgs)
            == Some(1i32),
        first_terminating(msgs) == Some(MessageType::Complete) ==> listener_run(None, msgs)
            == Some(0i32),
    decreases msgs.len(),
{
    if msgs.len() > 0 {
        lemma_exit_code_of_first_signal(msgs.skip(1));
        if is_terminating(msgs[0]) {
            lemma_stopped_stays(reaction_to(msgs[0])->Some_0.1, msgs.skip(1));
        }
    }
}

} // verus!
