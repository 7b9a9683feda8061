//! The run's configuration as parsed from the command line, and the list of
//! processes it describes: names, shorthand expansion, and the split of a
//! command into executable and arguments.

use crate::text::{lemma_split_from_len, lemma_views_push, replace, replace_all, split, split_on, views};
use vstd::prelude::*;
use vstd::string::*;

verus! {

/// The default number of restart attempts.
pub fn default_restart_tries() -> (r: i64)
    ensures
        r == 0,
{
    0
}

/// The default delay between restart attempts, in milliseconds.
pub fn default_restart_after() -> (r: i64)
    ensures
        r == 0,
{
    0
}

/// The default number of characters of a name that are shown.
pub fn default_prefix_length() -> (r: i16)
    ensures
        r == 10,
{
    10
}

/// The default separator of the names list.
pub fn default_names_separator() -> (r: String)
    ensures
        r@ == ","@,
{
    String::from_str(",")
}

/// The run's configuration.
#[derive(Debug, Clone)]
pub struct Commands {
    /// Names of the processes, joined by `names_seperator`.
    pub names: Option<String>,
    pub names_seperator: String,
    /// Stop the other processes when one exits.
    pub kill_others: bool,
    /// Stop the other processes when one cannot be launched.
    pub kill_others_on_fail: bool,
    /// Names of the processes whose output is hidden, joined by commas.
    pub hide: Option<String>,
    pub restart_tries: i64,
    pub restart_after: i64,
    /// A name template.
    pub prefix: Option<String>,
    pub prefix_length: i16,
    /// The concurrency cap, as a number or a percentage of the processing units.
    pub max_processes: Option<String>,
    pub raw: bool,
    pub no_color: bool,
    pub group: bool,
    pub processes: Vec<String>,
    pub timestamp_format: String,
}

/// The names in `names`, split on `seperator`; none without a list.
pub fn parse_names(names: &Option<String>, seperator: &String) -> (r: Vec<String>)
    ensures
        views(r@) == (match names {
            Some(n) => split_on(n@, seperator@),
            None => Seq::<Seq<char>>::empty(),
        }),
{
    match names {
        Some(names) => split(names.as_str(), seperator.as_str()),
        None => {
            let r: Vec<String> = Vec::new();
            assert(views(r@) =~= Seq::<Seq<char>>::empty());
            r
        },
    }
}

/// The names of the hidden processes: the list split on commas; none
/// without a list.
pub fn parse_hidden(hide: &Option<String>) -> (r: Vec<String>)
    ensures
        views(r@) == (match hide {
            Some(h) => split_on(h@, ","@),
            None => Seq::<Seq<char>>::empty(),
        }),
{
    match hide {
        Some(h) => split(h.as_str(), ","),
        None => {
            let r: Vec<String> = Vec::new();
            assert(views(r@) =~= Seq::<Seq<char>>::empty());
            r
        },
    }
}

/// A named command line.
#[derive(Debug)]
pub struct Command {
    pub name: String,
    pub cmd: String,
}

/// A command line with the `npm:`, then `pnpm:`, then `yarn:` shorthands
/// rewritten.
pub open spec fn shorthand_expanded(cmd: Seq<char>) -> Seq<char> {
    replace_all(
        replace_all(replace_all(cmd, "npm:"@, "npm run "@), "pnpm:"@, "pnpm "@),
        "yarn:"@,
        "yarn "@,
    )
}

impl Command {
    pub fn new(name: String, cmd: String) -> (r: Command)
        ensures
            r.name == name,
            r.cmd == cmd,
    {
        Command { name, cmd }
    }

    /// `npm:` rewritten to `npm run `.
    pub fn expand_npm(self) -> (r: Command)
        ensures
            r.name == self.name,
            r.cmd@ == replace_all(self.cmd@, "npm:"@, "npm run "@),
    {
        proof {
            reveal_strlit("npm:");
        }
        let cmd = replace(self.cmd.as_str(), "npm:", "npm run ");
        Command { name: self.name, cmd }
    }

    /// `pnpm:` rewritten to `pnpm `.
    pub fn expand_pnpm(self) -> (r: Command)
        ensures
            r.name == self.name,
            r.cmd@ == replace_all(self.cmd@, "pnpm:"@, "pnpm "@),
    {
        proof {
            reveal_strlit("pnpm:");
        }
        let cmd = replace(self.cmd.as_str(), "pnpm:", "pnpm ");
        Command { name: self.name, cmd }
    }

    /// `yarn:` rewritten to `yarn `.
    pub fn expand_yarn(self) -> (r: Command)
        ensures
            r.name == self.name,
            r.cmd@ == replace_all(self.cmd@, "yarn:"@, "yarn "@),
    {
        proof {
            reveal_strlit("yarn:");
        }
        let cmd = replace(self.cmd.as_str(), "yarn:", "yarn ");
        Command { name: self.name, cmd }
    }

    /// The executable: the command line up to its first space.
    pub fn get_command(&self) -> (r: String)
        ensures
            r@ == split_on(self.cmd@, " "@)[0],
    {
        proof {
            reveal_strlit(" ");
            lemma_split_from_len(self.cmd@, " "@, Seq::empty());
        }
        let pieces = split(self.cmd.as_str(), " ");
        assert(views(pieces@)[0] == pieces@[0]@);
        pieces[0].clone()
    }

    /// The arguments: the pieces of the command line between single spaces,
    /// after the first.
    pub fn get_args(&self) -> (r: Vec<String>)
        ensures
            views(r@) == split_on(self.cmd@, " "@).skip(1),
    {
        proof {
            reveal_strlit(" ");
            lemma_split_from_len(self.cmd@, " "@, Seq::empty());
        }
        let pieces = split(self.cmd.as_str(), " ");
        let mut args: Vec<String> = Vec::new();
        let mut k: usize = 1;
        while k < pieces.len()
            invariant
                1 <= k <= pieces@.len(),
                views(args@) == views(pieces@).subrange(1, k as int),
            decreases pieces@.len() - k,
        {
            let piece = pieces[k].clone();
            assert(piece@ == views(pieces@)[k as int]);
            proof {
                lemma_views_push(args@, piece);
            }
            assert(views(args@.push(piece)) =~= views(pieces@).subrange(1, k + 1));
            args.push(piece);
            k = k + 1;
        }
        assert(views(pieces@).subrange(1, pieces@.len() as int) =~= views(pieces@).skip(1));
        args
    }
}

/// A process of the run, by its command.
#[derive(Debug)]
pub struct Process {
    pub cmd: Command,
}

impl Process {
    /// The process for a named raw command, with its shorthands rewritten.
    pub fn new(name: String, cmd: String) -> (r: Process)
        ensures
            r.cmd.name == name,
            r.cmd.cmd@ == shorthand_expanded(cmd@),
    {
        Process { cmd: Command::new(name, cmd).expand_npm().expand_pnpm().expand_yarn() }
    }
}

/// The parsed command line.
#[derive(Debug)]
pub struct CommandParser {
    pub commands: Commands,
}

impl CommandParser {
    pub fn new(commands: Commands) -> (r: CommandParser)
        ensures
            r.commands == commands,
    {
        CommandParser { commands }
    }

    /// One process per command, in order: the `k`-th is named by the
    /// `k`-th name of the list where there is one, else by its command.
    pub fn parse(&self) -> (r: Vec<Process>)
        ensures
            r@.len() == self.commands.processes@.len(),
            forall|k: int|
                0 <= k < r@.len() ==> {
                    let names = match self.commands.names {
                        Some(n) => split_on(n@, self.commands.names_seperator@),
                        None => Seq::<Seq<char>>::empty(),
                    };
                    &&& (#[trigger] r@[k]).cmd.name@ == (if k < names.len() {
                        names[k]
                    } else {
                        self.commands.processes@[k]@
                    })
                    &&& r@[k].cmd.cmd@ == shorthand_expanded(self.commands.processes@[k]@)
                },
    {
        let cmds = &self.commands;
        let names = parse_names(&cmds.names, &cmds.names_seperator);
        let mut processes: Vec<Process> = Vec::new();
        let mut index: usize = 0;
        while index < cmds.processes.len()
            invariant
                index <= cmds.processes@.len(),
                processes@.len() == index,
                views(names@) == match cmds.names {
                    Some(n) => split_on(n@, cmds.names_seperator@),
                    None => Seq::<Seq<char>>::empty(),
                },
                forall|k: int|
                    0 <= k < index ==> {
                        &&& (#[trigger] processes@[k]).cmd.name@ == (if k < names@.len() {
                            names@[k]@
                        } else {
                            cmds.processes@[k]@
                        })
                        &&& processes@[k].cmd.cmd@ == shorthand_expanded(cmds.processes@[k]@)
                    },
            decreases cmds.processes@.len() - index,
        {
            let name = if index < names.len() {
                names[index].clone()
            } else {
                cmds.processes[index].clone()
            };
            let cmd = cmds.processes[index].clone();
            let process = Process::new(name, cmd);
            processes.push(process);
            index = index + 1;
        }
        assert(forall|k: int| 0 <= k < names@.len() ==> names@[k]@ == #[trigger] views(names@)[k]);
        processes
    }

    /// The number of processes.
    pub fn len(&self) -> (r: usize)
        ensures
            r == self.commands.processes@.len(),
    {
        self.commands.processes.len()
    }
}

} // verus!
