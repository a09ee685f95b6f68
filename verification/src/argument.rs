//! Metadata for the command-line arguments the commands accept: a name,
//! the one-letter prefix the user types, and a help line.

use vstd::prelude::*;

verus! {

/// One argument's metadata.
#[derive(Debug)]
pub struct ArgumentMeta {
    pub name: String,
    pub prefix: String,
    pub help: String,
}

/// Anything that carries argument metadata.
pub trait Argument {
    /// The argument's metadata.
    fn meta(&self) -> &ArgumentMeta;
}

/// The priority argument.
pub fn priority_argument() -> (r: ArgumentMeta)
    ensures
        r.name@ == "priority"@,
        r.prefix@ == "p"@,
        r.help@ == "Optional priority, e.g. -p high"@,
{
    ArgumentMeta {
        name: String::from_str("priority"),
        prefix: String::from_str("p"),
        help: String::from_str("Optional priority, e.g. -p high"),
    }
}

/// The due date argument.
pub fn due_date_argument() -> (r: ArgumentMeta)
    ensures
        r.name@ == "due_date"@,
        r.prefix@ == "d"@,
        r.help@ == "Optional due date, e.g. -d DD.MM.YYYY"@,
{
    ArgumentMeta {
        name: String::from_str("due_date"),
        prefix: String::from_str("d"),
        help: String::from_str("Optional due date, e.g. -d DD.MM.YYYY"),
    }
}

/// The description argument.
pub fn description_argument() -> (r: ArgumentMeta)
    ensures
        r.name@ == "description"@,
        r.prefix@ == "m"@,
        r.help@ == "m for memo, optional description, e.g. -m \"Task details\""@,
{
    ArgumentMeta {
        name: String::from_str("description"),
        prefix: String::from_str("m"),
        help: String::from_str("m for memo, optional description, e.g. -m \"Task details\""),
    }
}

/// The title argument.
pub fn title_argument() -> (r: ArgumentMeta)
    ensures
        r.name@ == "title"@,
        r.prefix@ == "t"@,
        r.help@ == "change title e.g. -t \"New Title\""@,
{
    ArgumentMeta {
        name: String::from_str("title"),
        prefix: String::from_str("t"),
        help: String::from_str("change title e.g. -t \"New Title\""),
    }
}

/// The finished-state argument.
pub fn finished_argument() -> (r: ArgumentMeta)
    ensures
        r.name@ == "finished"@,
        r.prefix@ == "f"@,
        r.help@ == "change finish state, false: not finished, true: finished, e.g. -f true"@,
{
    ArgumentMeta {
        name: String::from_str("finished"),
        prefix: String::from_str("f"),
        help: String::from_str(
            "change finish state, false: not finished, true: finished, e.g. -f true",
        ),
    }
}

/// The remote-path argument of the config command.
pub fn config_git_remote_argument() -> (r: ArgumentMeta)
    ensures
        r.name@ == "git_remote_path"@,
        r.prefix@ == "r"@,
        r.help@ == "change git_remote_path, e.g. -r git@example.com:user/todos.git"@,
{
    ArgumentMeta {
        name: String::from_str("git_remote_path"),
        prefix: String::from_str("r"),
        help: String::from_str("change git_remote_path, e.g. -r git@example.com:user/todos.git"),
    }
}

/// The auto-sync argument of the config command.
pub fn config_auto_sync_argument() -> (r: ArgumentMeta)
    ensures
        r.name@ == "auto_sync"@,
        r.prefix@ == "a"@,
        r.help@ == "change auto_sync state, true: auto sync enabled, false: auto_sync disabled, e.g. -a true"@,
{
    ArgumentMeta {
        name: String::from_str("auto_sync"),
        prefix: String::from_str("a"),
        help: String::from_str(
            "change auto_sync state, true: auto sync enabled, false: auto_sync disabled, e.g. -a true",
        ),
    }
}

/// The show argument of the config command.
pub fn config_show_argument() -> (r: ArgumentMeta)
    ensures
        r.name@ == "config_show"@,
        r.prefix@ == "s"@,
        r.help@ == "shows current configuration"@,
{
    ArgumentMeta {
        name: String::from_str("config_show"),
        prefix: String::from_str("s"),
        help: String::from_str("shows current configuration"),
    }
}

} // verus!
