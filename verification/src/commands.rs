//! The commands of the task list, their argument records, and the pure
//! part of what each command does to a loaded list. Reading the store,
//! prompting, rendering tables and writing the store back are the
//! caller's work; everything that decides or transforms is here.

use vstd::prelude::*;

use crate::argument::{
    config_auto_sync_argument, config_git_remote_argument, config_show_argument, ArgumentMeta,
};
use crate::priority::Priority;
use crate::sort_order::SortCriteria;
use crate::todo::{Date, Todo, TodoBuilder};
use crate::todo_list::TodoList;

verus! {

/// The commands the parser can name.
#[derive(Debug, Clone, Copy, PartialEq, Eq, Structural)]
pub enum CommandKind {
    Show,
    Remove,
    Complete,
    Update,
    Sort,
    Help,
    Config,
}

/// A command's metadata: a help line and the arguments it takes.
pub trait Command {
    /// A short description for the help listing.
    fn description(&self) -> &'static str;

    /// The arguments the command accepts.
    fn arguments(&self) -> Vec<ArgumentMeta>;
}

/// The known commands, each under the name the user types.
pub fn all_commands() -> (r: Vec<(&'static str, CommandKind)>)
    ensures
        r@.len() == 7,
        r@[0].0@ == "show"@ && r@[0].1 == CommandKind::Show,
        r@[1].0@ == "remove"@ && r@[1].1 == CommandKind::Remove,
        r@[2].0@ == "complete"@ && r@[2].1 == CommandKind::Complete,
        r@[3].0@ == "update"@ && r@[3].1 == CommandKind::Update,
        r@[4].0@ == "sort"@ && r@[4].1 == CommandKind::Sort,
        r@[5].0@ == "help"@ && r@[5].1 == CommandKind::Help,
        r@[6].0@ == "config"@ && r@[6].1 == CommandKind::Config,
{
    let mut r: Vec<(&'static str, CommandKind)> = Vec::new();
    r.push(("show", CommandKind::Show));
    r.push(("remove", CommandKind::Remove));
    r.push(("complete", CommandKind::Complete));
    r.push(("update", CommandKind::Update));
    r.push(("sort", CommandKind::Sort));
    r.push(("help", CommandKind::Help));
    r.push(("config", CommandKind::Config));
    r
}

/// Looks a command up by its name.
pub fn command_of(name: &str) -> (r: Option<CommandKind>)
    ensures
        r == crate::parser::spec_command_of(name@),
{
    proof {
        reveal_strlit("show");
        reveal_strlit("remove");
        reveal_strlit("complete");
        reveal_strlit("update");
        reveal_strlit("sort");
        reveal_strlit("help");
        reveal_strlit("config");
        assert("show"@.len() == 4 && "remove"@.len() == 6 && "complete"@.len() == 8
            && "update"@.len() == 6 && "sort"@.len() == 4 && "help"@.len() == 4 && "config"@.len()
            == 6);
        assert("show"@[0] == 's' && "remove"@[0] == 'r' && "complete"@[0] == 'c' && "update"@[0]
            == 'u' && "sort"@[0] == 's' && "help"@[0] == 'h' && "config"@[0] == 'c');
        assert("show"@[1] == 'h' && "sort"@[1] == 'o');
        assert("complete"@[1] == 'o' && "config"@[1] == 'o');
        assert("complete"@[2] == 'm' && "config"@[2] == 'n');
        assert("remove"@ != "update"@ && "remove"@ != "config"@ && "update"@ != "config"@);
        assert("show"@ != "sort"@ && "complete"@ != "config"@);
    }
    if crate::text::str_eq(name, "show") {
        Some(CommandKind::Show)
    } else if crate::text::str_eq(name, "remove") {
        Some(CommandKind::Remove)
    } else if crate::text::str_eq(name, "complete") {
        Some(CommandKind::Complete)
    } else if crate::text::str_eq(name, "update") {
        Some(CommandKind::Update)
    } else if crate::text::str_eq(name, "sort") {
        Some(CommandKind::Sort)
    } else if crate::text::str_eq(name, "help") {
        Some(CommandKind::Help)
    } else if crate::text::str_eq(name, "config") {
        Some(CommandKind::Config)
    } else {
        None
    }
}

/// Adds a new task.
#[derive(Debug)]
pub struct AddCommand {}

/// What the add command was given.
#[derive(Debug)]
pub struct AddArgs {
    pub title: String,
    pub description: Option<String>,
    pub priority: Option<Priority>,
    pub due_date: Option<Date>,
}

impl AddCommand {
    /// Builds the new record from the arguments and appends it to the
    /// list. Only the creation time, taken from the clock, is not fixed
    /// by the arguments.
    pub fn execute(args: AddArgs, list: &mut TodoList)
        requires
            match args.due_date {
                Some(d) => d.is_valid(),
                None => true,
            },
        ensures
            final(list).todos@.len() == old(list).todos@.len() + 1,
            forall|i: int|
                0 <= i < old(list).todos@.len() ==> final(list).todos@[i] == old(list).todos@[i],
            ({
                let t = final(list).todos@.last();
                &&& t.title@ == args.title@
                &&& t.description.deep_view() == args.description.deep_view()
                &&& t.priority == match args.priority {
                    Some(p) => p,
                    None => Priority::Low,
                }
                &&& t.due_date == args.due_date
                &&& !t.finished
                &&& t.wf()
            }),
    {
        let builder = TodoBuilder::new().title(args.title.as_str()).description(
            args.description,
        );
        let builder = match args.priority {
            Some(p) => builder.priority(p),
            None => builder,
        };
        let builder = match args.due_date {
            Some(d) => builder.due_date(d),
            None => builder,
        };
        match builder.build() {
            Ok(todo) => {
                list.add(todo);
            },
            Err(_) => {
                proof {
                    assert(false);
                }
            },
        }
    }
}

/// Shows the task list.
#[derive(Debug)]
pub struct ShowCommand;

/// The show command takes no arguments.
#[derive(Debug)]
pub struct ShowArgs {}

/// Removes a task by its positional identity.
#[derive(Debug)]
pub struct RemoveCommand;

/// What the remove command was given.
#[derive(Debug)]
pub struct RemoveArgs {
    pub id: usize,
}

impl RemoveCommand {
    /// Removes the record at the given position; `None` when there is no
    /// such record. Every later record moves up one place, changing its
    /// positional identity on the next load.
    pub fn execute(args: RemoveArgs, list: &mut TodoList) -> (r: Option<Todo>)
        ensures
            args.id < old(list).todos@.len() ==> {
                &&& r == Some(old(list).todos@[args.id as int])
                &&& final(list).todos@ == old(list).todos@.remove(args.id as int)
            },
            args.id >= old(list).todos@.len() ==> r is None && *final(list) == *old(list),
    {
        list.remove(args.id)
    }
}

/// Marks a task finished.
#[derive(Debug)]
pub struct CompleteCommand;

/// What the complete command was given.
#[derive(Debug)]
pub struct CompleteArgs {
    pub id: usize,
}

impl CompleteCommand {
    /// Marks the record at the given position finished; `false` when there
    /// is no such record.
    pub fn execute(args: CompleteArgs, list: &mut TodoList) -> (r: bool)
        ensures
            args.id < old(list).todos@.len() ==> {
                &&& r
                &&& final(list).todos@ == old(list).todos@.update(
                    args.id as int,
                    (Todo { finished: true, ..old(list).todos@[args.id as int] }),
                )
            },
            args.id >= old(list).todos@.len() ==> !r && *final(list) == *old(list),
    {
        match list.get_todo(args.id) {
            Some(t) => {
                let mut updated = t.clone();
                updated.complete(true);
                list.set_todo(args.id, updated)
            },
            None => false,
        }
    }
}

/// Edits a task's fields.
#[derive(Debug)]
pub struct UpdateCommand;

/// What the update command was given; an unset field stays as it is.
#[derive(Debug)]
pub struct UpdateArgs {
    pub id: usize,
    pub title: Option<String>,
    pub description: Option<String>,
    pub priority: Option<Priority>,
    pub due_date: Option<Date>,
    pub finished: Option<bool>,
}

/// The record `t` with the set fields of `args` written over it.
pub open spec fn spec_updated(t: Todo, args: UpdateArgs) -> Todo {
    Todo {
        title: match args.title {
            Some(x) => x,
            None => t.title,
        },
        description: match args.description {
            Some(x) => Some(x),
            None => t.description,
        },
        priority: match args.priority {
            Some(x) => x,
            None => t.priority,
        },
        due_date: match args.due_date {
            Some(x) => Some(x),
            None => t.due_date,
        },
        finished: match args.finished {
            Some(x) => x,
            None => t.finished,
        },
        ..t
    }
}

impl UpdateCommand {
    /// Writes every set field of `args` over the record at the given
    /// position; `false` when there is no such record.
    pub fn execute(args: UpdateArgs, list: &mut TodoList) -> (r: bool)
        requires
            match args.due_date {
                Some(d) => d.is_valid(),
                None => true,
            },
        ensures
            args.id < old(list).todos@.len() ==> {
                &&& r
                &&& final(list).todos@ == old(list).todos@.update(
                    args.id as int,
                    spec_updated(old(list).todos@[args.id as int], args),
                )
            },
            args.id >= old(list).todos@.len() ==> !r && *final(list) == *old(list),
    {
        let id = args.id;
        match list.get_todo(id) {
            Some(t) => {
                let mut updated = t.clone();
                match args.title {
                    Some(x) => updated.set_title(x),
                    None => {},
                }
                match args.description {
                    Some(x) => updated.set_description(x),
                    None => {},
                }
                match args.priority {
                    Some(x) => updated.set_priority(x),
                    None => {},
                }
                match args.due_date {
                    Some(x) => updated.set_due_date(x),
                    None => {},
                }
                match args.finished {
                    Some(x) => updated.set_finished(x),
                    None => {},
                }
                list.set_todo(id, updated)
            },
            None => false,
        }
    }
}

/// Reorders the task list.
#[derive(Debug)]
pub struct SortCommand;

/// What the sort command was given: the criteria chain to order by.
#[derive(Debug)]
pub struct SortArgs {
    pub criterias: Vec<SortCriteria>,
}

impl SortCommand {
    /// Reorders the list by the given criteria chain. The caller keeps the
    /// chain in the configuration and saves the reordered store.
    pub fn execute(args: &SortArgs, list: &mut TodoList)
        ensures
            final(list).todos@.to_multiset() == old(list).todos@.to_multiset(),
            final(list).todos@.len() == old(list).todos@.len(),
            crate::todo_list::sorted_by(final(list).todos@, args.criterias@),
            old(list).wf() ==> final(list).wf(),
    {
        list.sort_by_order(&args.criterias);
    }
}

/// Shows help about all commands.
#[derive(Debug)]
pub struct HelpCommand;

impl HelpCommand {
    pub fn new() -> (r: HelpCommand)
        ensures
            r == (HelpCommand {  }),
    {
        HelpCommand
    }
}

/// Changes the configuration.
#[derive(Debug)]
pub struct ConfigCommand;

/// Syncs the store with its remote.
#[derive(Debug)]
pub struct SyncCommand;

impl Command for ShowCommand {
    fn description(&self) -> &'static str {
        "No description provided."
    }

    fn arguments(&self) -> Vec<ArgumentMeta> {
        Vec::new()
    }
}

impl Command for RemoveCommand {
    fn description(&self) -> &'static str {
        "No description provided."
    }

    fn arguments(&self) -> Vec<ArgumentMeta> {
        Vec::new()
    }
}

impl Command for CompleteCommand {
    fn description(&self) -> &'static str {
        "No description provided."
    }

    fn arguments(&self) -> Vec<ArgumentMeta> {
        Vec::new()
    }
}

impl Command for UpdateCommand {
    fn description(&self) -> &'static str {
        "No description provided."
    }

    fn arguments(&self) -> Vec<ArgumentMeta> {
        Vec::new()
    }
}

impl Command for SortCommand {
    fn description(&self) -> &'static str {
        "No description provided."
    }

    fn arguments(&self) -> Vec<ArgumentMeta> {
        Vec::new()
    }
}

impl Command for HelpCommand {
    fn description(&self) -> &'static str {
        "Show help about all commands"
    }

    fn arguments(&self) -> Vec<ArgumentMeta> {
        Vec::new()
    }
}

impl Command for ConfigCommand {
    fn description(&self) -> &'static str {
        "Change configuration"
    }

    fn arguments(&self) -> Vec<ArgumentMeta> {
        let mut r: Vec<ArgumentMeta> = Vec::new();
        r.push(config_git_remote_argument());
        r.push(config_auto_sync_argument());
        r.push(config_show_argument());
        r
    }
}

} // verus!
