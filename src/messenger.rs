//! The output sequencer: shows data messages as they arrive, or holds them
//! and replays them grouped by task index once the run ends.

use crate::message::{print_message, rendered, Message, MessageType};
use crate::text::views;
use vstd::prelude::*;

verus! {

/// What becomes of one arriving data message.
#[derive(Debug)]
pub enum Delivery {
    /// Print this line now.
    Show(String),
    /// The message is held for the grouped replay, or dropped.
    Held,
    /// The run ends: stop listening (in grouped mode, after taking in what
    /// is still queued and printing the replay).
    Stop,
}

/// The task index that `m` comes from, as an integer (-1 for none).
pub open spec fn index_of(m: Message) -> int {
    match m.sender.index {
        Some(i) => i as int,
        None => -1,
    }
}

/// The messages of `buf` from task `i`, in arrival order.
pub open spec fn of_index(buf: Seq<Message>, i: nat) -> Seq<Message>
    decreases buf.len(),
{
    if buf.len() == 0 {
        Seq::empty()
    } else {
        let prev = of_index(buf.drop_last(), i);
        if index_of(buf.last()) == i {
            prev.push(buf.last())
        } else {
            prev
        }
    }
}

/// The messages of `buf` from tasks `i` to `n - 1`: task by task in
/// ascending index order, each task's in arrival order.
pub open spec fn grouped_from(buf: Seq<Message>, i: nat, n: nat) -> Seq<Message>
    decreases n - i,
{
    if i >= n {
        Seq::empty()
    } else {
        of_index(buf, i) + grouped_from(buf, i + 1, n)
    }
}

/// The grouped replay of `buf` for a run of `n` tasks.
pub open spec fn grouped(buf: Seq<Message>, n: nat) -> Seq<Message> {
    grouped_from(buf, 0, n)
}

/// The line shown for `m`.
pub open spec fn line_of(m: Message, raw: bool, no_color: bool) -> Seq<char> {
    rendered(m.sender.type_, m.name@, m.data@, m.color, raw, no_color)
}

/// The lines shown for the messages `s`.
pub open spec fn lines_of(s: Seq<Message>, raw: bool, no_color: bool) -> Seq<Seq<char>> {
    s.map_values(|m: Message| line_of(m, raw, no_color))
}

proof fn lemma_of_index_members(buf: Seq<Message>, i: nat)
    ensures
        forall|p: int| 0 <= p < of_index(buf, i).len() ==> index_of(#[trigger] of_index(buf, i)[p]) == i,
        of_index(buf, i).len() <= buf.len(),
    decreases buf.len(),
{
    if buf.len() > 0 {
        lemma_of_index_members(buf.drop_last(), i);
    }
}

proof fn lemma_of_index_concat(x: Seq<Message>, y: Seq<Message>, i: nat)
    ensures
        of_index(x + y, i) == of_index(x, i) + of_index(y, i),
    decreases y.len(),
{
    if y.len() == 0 {
        assert(x + y =~= x);
        assert(of_index(x, i) + of_index(y, i) =~= of_index(x, i));
    } else {
        assert((x + y).drop_last() =~= x + y.drop_last());
        lemma_of_index_concat(x, y.drop_last(), i);
        if index_of(y.last()) == i {
            assert(of_index(x, i) + of_index(y.drop_last(), i).push(y.last()) =~= (of_index(x, i)
                + of_index(y.drop_last(), i)).push(y.last()));
        }
    }
}

proof fn lemma_of_index_uniform(s: Seq<Message>, i: nat, k: nat)
    requires
        forall|p: int| 0 <= p < s.len() ==> index_of(#[trigger] s[p]) == i,
    ensures
        of_index(s, k) == (if k == i {
            s
        } else {
            Seq::<Message>::empty()
        }),
    decreases s.len(),
{
    if s.len() > 0 {
        assert forall|p: int| 0 <= p < s.drop_last().len() implies index_of(
            #[trigger] s.drop_last()[p],
        ) == i by {
            assert(s.drop_last()[p] == s[p]);
        }
        lemma_of_index_uniform(s.drop_last(), i, k);
        assert(index_of(s[s.len() - 1]) == i);
        if k == i {
            assert(s.drop_last().push(s.last()) =~= s);
        }
    }
}

proof fn lemma_grouped_from_facts(buf: Seq<Message>, j: nat, n: nat)
    ensures
        forall|p: int|
            0 <= p < grouped_from(buf, j, n).len() ==> j <= index_of(
                #[trigger] grouped_from(buf, j, n)[p],
            ) < n,
        forall|p: int, q: int|
            0 <= p < q < grouped_from(buf, j, n).len() ==> index_of(
                #[trigger] grouped_from(buf, j, n)[p],
            ) <= index_of(#[trigger] grouped_from(buf, j, n)[q]),
        forall|k: nat|
            #![trigger of_index(grouped_from(buf, j, n), k)]
            of_index(grouped_from(buf, j, n), k) == (if j <= k < n {
                of_index(buf, k)
            } else {
                Seq::<Message>::empty()
            }),
    decreases n - j,
{
    if j < n {
        lemma_grouped_from_facts(buf, j + 1, n);
        lemma_of_index_members(buf, j);
        let a = of_index(buf, j);
        let b = grouped_from(buf, j + 1, n);
        let g = grouped_from(buf, j, n);
        assert(g == a + b);
        assert forall|p: int| 0 <= p < g.len() implies j <= index_of(#[trigger] g[p]) < n by {
            if p < a.len() {
                assert(g[p] == a[p]);
            } else {
                assert(g[p] == b[p - a.len()]);
            }
        }
        assert forall|p: int, q: int| 0 <= p < q < g.len() implies index_of(#[trigger] g[p])
            <= index_of(#[trigger] g[q]) by {
            if q < a.len() {
                assert(g[p] == a[p]);
                assert(g[q] == a[q]);
            } else if p < a.len() {
                assert(g[p] == a[p]);
                assert(g[q] == b[q - a.len()]);
            } else {
                assert(g[p] == b[p - a.len()]);
                assert(g[q] == b[q - a.len()]);
            }
        }
        assert forall|k: nat| #![trigger of_index(grouped_from(buf, j, n), k)]
            of_index(grouped_from(buf, j, n), k) == (if j <= k < n {
                of_index(buf, k)
            } else {
                Seq::<Message>::empty()
            }) by {
            lemma_of_index_concat(a, b, k);
            lemma_of_index_uniform(a, j, k);
            assert(of_index(b, k) == (if j + 1 <= k < n {
                of_index(buf, k)
            } else {
                Seq::<Message>::empty()
            }));
            if k == j {
                assert(a + Seq::<Message>::empty() =~= a);
            } else {
                assert(Seq::<Message>::empty() + of_index(b, k) =~= of_index(b, k));
            }
        }
    } else {
        assert forall|k: nat| #![trigger of_index(grouped_from(buf, j, n), k)]
            of_index(grouped_from(buf, j, n), k) == (if j <= k < n {
                of_index(buf, k)
            } else {
                Seq::<Message>::empty()
            }) by {
            assert(grouped_from(buf, j, n) =~= Seq::<Message>::empty());
        }
    }
}

/// The grouped replay puts messages in ascending task index, every one of
/// them from a task of the run, and keeps each task's messages exactly as
/// and in the order they arrived, however the tasks' messages interleaved.
pub proof fn lemma_grouped_order(buf: Seq<Message>, n: nat)
    ensures
        forall|p: int|
            0 <= p < grouped(buf, n).len() ==> 0 <= index_of(#[trigger] grouped(buf, n)[p]) < n,
        forall|p: int, q: int|
            0 <= p < q < grouped(buf, n).len() ==> index_of(#[trigger] grouped(buf, n)[p])
                <= index_of(#[trigger] grouped(buf, n)[q]),
        forall|i: nat| i < n ==> #[trigger] of_index(grouped(buf, n), i) == of_index(buf, i),
{
    lemma_grouped_from_facts(buf, 0, n);
    assert forall|i: nat| i < n implies #[trigger] of_index(grouped(buf, n), i) == of_index(buf, i) by {
        assert(of_index(grouped_from(buf, 0, n), i) == of_index(buf, i));
    }
}

/// The sequencer of one run.
#[derive(Debug)]
pub struct Messenger {
    raw: bool,
    no_color: bool,
    group: bool,
    num_commands: usize,
    message_queue: Vec<Message>,
}

impl Messenger {
    /// The messages held for the replay, in arrival order.
    pub closed spec fn held(&self) -> Seq<Message> {
        self.message_queue@
    }

    /// Whether output is grouped by task.
    pub closed spec fn is_grouped(&self) -> bool {
        self.group
    }

    /// Whether only process output is shown, undecorated.
    pub closed spec fn is_raw(&self) -> bool {
        self.raw
    }

    /// Whether colour is disabled.
    pub closed spec fn is_colorless(&self) -> bool {
        self.no_color
    }

    /// The number of tasks of the run.
    pub closed spec fn tasks(&self) -> nat {
        self.num_commands as nat
    }

    /// A sequencer for a run of `num_commands` tasks, holding nothing.
    pub fn new(raw: bool, no_color: bool, num_commands: usize, group: bool) -> (r: Messenger)
        ensures
            r.held() == Seq::<Message>::empty(),
            r.is_raw() == raw,
            r.is_colorless() == no_color,
            r.tasks() == num_commands,
            r.is_grouped() == group,
    {
        Messenger { raw, no_color, group, num_commands, message_queue: Vec::new() }
    }

    /// The line shown for `message`.
    pub fn render(&self, message: &Message) -> (r: String)
        ensures
            r@ == line_of(*message, self.is_raw(), self.is_colorless()),
    {
        print_message(
            message.sender.type_,
            message.name.clone(),
            message.data.clone(),
            message.color,
            self.raw,
            self.no_color,
        )
    }

    /// Holds `message` for the replay when it comes from one of the run's
    /// tasks; drops it otherwise.
    pub fn hold(&mut self, message: Message)
        ensures
            final(self).held() == (match message.sender.index {
                Some(i) => if i < old(self).tasks() {
                    old(self).held().push(message)
                } else {
                    old(self).held()
                },
                None => old(self).held(),
            }),
            final(self).is_raw() == old(self).is_raw(),
            final(self).is_colorless() == old(self).is_colorless(),
            final(self).tasks() == old(self).tasks(),
            final(self).is_grouped() == old(self).is_grouped(),
    {
        if let Some(i) = message.sender.index {
            if i < self.num_commands {
                self.message_queue.push(message);
            }
        }
    }

    /// What becomes of an arriving message: a `Kill` ends the run; in live
    /// mode any other message is shown at once, in grouped mode it is held.
    pub fn receive(&mut self, message: Message) -> (r: Delivery)
        ensures
            final(self).is_raw() == old(self).is_raw(),
            final(self).is_colorless() == old(self).is_colorless(),
            final(self).tasks() == old(self).tasks(),
            final(self).is_grouped() == old(self).is_grouped(),
            message.type_ == MessageType::Kill ==> r is Stop && final(self).held() == old(
                self,
            ).held(),
            message.type_ != MessageType::Kill && !old(self).is_grouped() ==> {
                &&& r matches Delivery::Show(line) && line@ == line_of(
                    message,
                    old(self).is_raw(),
                    old(self).is_colorless(),
                )
                &&& final(self).held() == old(self).held()
            },
            message.type_ != MessageType::Kill && old(self).is_grouped() ==> {
                &&& r is Held
                &&& final(self).held() == (match message.sender.index {
                    Some(i) => if i < old(self).tasks() {
                        old(self).held().push(message)
                    } else {
                        old(self).held()
                    },
                    None => old(self).held(),
                })
            },
    {
        match message.type_ {
            MessageType::Kill => Delivery::Stop,
            _ => {
                if self.group {
                    self.hold(message);
                    Delivery::Held
                } else {
                    Delivery::Show(self.render(&message))
                }
            },
        }
    }

    /// The grouped replay: the lines of every held message, task by task in
    /// ascending index order and each task's in arrival order; afterwards
    /// nothing is held.
    pub fn flush(&mut self) -> (r: Vec<String>)
        ensures
            views(r@) == lines_of(
                grouped(old(self).held(), old(self).tasks()),
                old(self).is_raw(),
                old(self).is_colorless(),
            ),
            final(self).held() == Seq::<Message>::empty(),
            final(self).is_raw() == old(self).is_raw(),
            final(self).is_colorless() == old(self).is_colorless(),
            final(self).tasks() == old(self).tasks(),
            final(self).is_grouped() == old(self).is_grouped(),
    {
        let ghost buf = self.message_queue@;
        let ghost raw = self.raw;
        let ghost no_color = self.no_color;
        let n = self.num_commands;
        let mut lines: Vec<String> = Vec::new();
        let mut i: usize = 0;
        while i < n
            invariant
                i <= n,
                n == self.num_commands,
                buf == self.message_queue@,
                raw == self.raw,
                no_color == self.no_color,
                views(lines@) + lines_of(grouped_from(buf, i as nat, n as nat), raw, no_color)
                    == lines_of(grouped(buf, n as nat), raw, no_color),
            decreases n - i,
        {
            let ghost before = views(lines@);
            let mut j: usize = 0;
            assert(buf.take(0) =~= Seq::<Message>::empty());
            assert(views(lines@) =~= before + lines_of(of_index(buf.take(0), i as nat), raw, no_color));
            while j < self.message_queue.len()
                invariant
                    i < n,
                    j <= buf.len(),
                    buf == self.message_queue@,
                    raw == self.raw,
                    no_color == self.no_color,
                    views(lines@) == before + lines_of(of_index(buf.take(j as int), i as nat), raw, no_color),
                decreases buf.len() - j,
            {
                let ghost prefix = buf.take(j as int);
                assert(buf.take(j + 1).drop_last() =~= prefix);
                if self.message_queue[j].sender.index == Some(i) {
                    let line = self.render(&self.message_queue[j]);
                    proof {
                        let sel = of_index(prefix, i as nat);
                        assert(views(lines@.push(line)) =~= views(lines@).push(line@));
                        assert(lines_of(sel.push(buf[j as int]), raw, no_color) =~= lines_of(sel, raw, no_color).push(line@));
                    }
                    lines.push(line);
                }
                j = j + 1;
            }
            assert(buf.take(buf.len() as int) =~= buf);
            proof {
                let a = of_index(buf, i as nat);
                let b = grouped_from(buf, (i + 1) as nat, n as nat);
                assert(lines_of(a + b, raw, no_color) =~= lines_of(a, raw, no_color) + lines_of(b, raw, no_color));
                assert(before + lines_of(a + b, raw, no_color) =~= (before + lines_of(a, raw, no_color)) + lines_of(b, raw, no_color));
            }
            i = i + 1;
        }
        assert(views(lines@) + lines_of(Seq::<Message>::empty(), raw, no_color) =~= views(lines@));
        self.message_queue = Vec::new();
        lines
    }
}

} // verus!
