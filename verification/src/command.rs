//! The command line: which command the arguments ask for.

use vstd::prelude::*;
use crate::error::{ArgumentIssue, TodoError};
use crate::text::{id_of_text, join_words, joined, parse_id, same_text};

verus! {

/// Something to do with the list.
#[derive(Debug, PartialEq, Eq)]
pub enum Action {
    /// Add a task with this title.
    Add(String),
    /// Mark the task with this id completed.
    Complete(usize),
    /// Delete the task with this id.
    Delete(usize),
    /// Show the pending tasks.
    List,
    /// Show all tasks.
    ListAll,
}

/// One command of the program.
#[derive(Debug, PartialEq, Eq)]
pub enum Command {
    /// Show the usage text; the list is not touched.
    Help,
    /// A word that names no command; the list is not touched.
    Unknown(String),
    /// Load the list, do this, and save the list.
    Run(Action),
}

/// What an `Action` stands for in contracts.
pub enum ActionView {
    Add(Seq<char>),
    Complete(usize),
    Delete(usize),
    List,
    ListAll,
}

/// What a `Command` stands for in contracts.
pub enum CommandView {
    Help,
    Unknown(Seq<char>),
    Run(ActionView),
}

impl View for Action {
    type V = ActionView;

    open spec fn view(&self) -> ActionView {
        match self {
            Action::Add(title) => ActionView::Add(title@),
            Action::Complete(id) => ActionView::Complete(*id),
            Action::Delete(id) => ActionView::Delete(*id),
            Action::List => ActionView::List,
            Action::ListAll => ActionView::ListAll,
        }
    }
}

impl View for Command {
    type V = CommandView;

    open spec fn view(&self) -> CommandView {
        match self {
            Command::Help => CommandView::Help,
            Command::Unknown(word) => CommandView::Unknown(word@),
            Command::Run(action) => CommandView::Run(action@),
        }
    }
}

/// The id that `complete` and `delete` take: the first argument after the
/// command's name.
pub open spec fn id_argument(args: Seq<Seq<char>>) -> Result<usize, TodoError> {
    if args.len() < 2 {
        Err(TodoError::InvalidArgument(ArgumentIssue::MissingId))
    } else {
        match id_of_text(args[1]) {
            Some(id) => Ok(id),
            None => Err(TodoError::InvalidArgument(ArgumentIssue::IdNotANumber)),
        }
    }
}

/// The command that the arguments ask for. The first argument names the
/// command; no argument at all asks for help. `add` takes all further
/// arguments as the words of the title; `complete` and `delete` take one id
/// and ignore what follows it.
pub open spec fn command_of(args: Seq<Seq<char>>) -> Result<CommandView, TodoError> {
    if args.len() == 0 || args[0] == "help"@ {
        Ok(CommandView::Help)
    } else if args[0] == "add"@ {
        if args.len() < 2 {
            Err(TodoError::InvalidArgument(ArgumentIssue::MissingDescription))
        } else {
            Ok(CommandView::Run(ActionView::Add(joined(args.skip(1)))))
        }
    } else if args[0] == "complete"@ {
        match id_argument(args) {
            Ok(id) => Ok(CommandView::Run(ActionView::Complete(id))),
            Err(e) => Err(e),
        }
    } else if args[0] == "delete"@ {
        match id_argument(args) {
            Ok(id) => Ok(CommandView::Run(ActionView::Delete(id))),
            Err(e) => Err(e),
        }
    } else if args[0] == "list"@ {
        Ok(CommandView::Run(ActionView::List))
    } else if args[0] == "list-all"@ {
        Ok(CommandView::Run(ActionView::ListAll))
    } else {
        Ok(CommandView::Unknown(args[0]))
    }
}

/// Reads the id argument of `complete` and `delete`.
fn parse_id_argument(args: &Vec<String>) -> (result: Result<usize, TodoError>)
    requires
        args.len() >= 1,
    ensures
        result == id_argument(args@.map_values(|a: String| a@)),
{
    if args.len() < 2 {
        return Err(TodoError::InvalidArgument(ArgumentIssue::MissingId));
    }
    match parse_id(args[1].as_str()) {
        Some(id) => Ok(id),
        None => Err(TodoError::InvalidArgument(ArgumentIssue::IdNotANumber)),
    }
}

/// Reads the command from the program's arguments, the program's own name
/// left out.
pub fn parse_command(args: &Vec<String>) -> (result: Result<Command, TodoError>)
    ensures
        match command_of(args@.map_values(|a: String| a@)) {
            Ok(command) => result is Ok && result->Ok_0@ == command,
            Err(error) => result == Err::<Command, TodoError>(error),
        },
{
    if args.len() == 0 {
        return Ok(Command::Help);
    }
    let name = args[0].as_str();
    proof {
        let words = args@.map_values(|a: String| a@);
        assert(args@.skip(1).map_values(|a: String| a@) =~= words.skip(1));
    }
    if same_text(name, "help") {
        Ok(Command::Help)
    } else if same_text(name, "add") {
        if args.len() < 2 {
            Err(TodoError::InvalidArgument(ArgumentIssue::MissingDescription))
        } else {
            Ok(Command::Run(Action::Add(join_words(args, 1))))
        }
    } else if same_text(name, "complete") {
        match parse_id_argument(args) {
            Ok(id) => Ok(Command::Run(Action::Complete(id))),
            Err(e) => Err(e),
        }
    } else if same_text(name, "delete") {
        match parse_id_argument(args) {
            Ok(id) => Ok(Command::Run(Action::Delete(id))),
            Err(e) => Err(e),
        }
    } else if same_text(name, "list") {
        Ok(Command::Run(Action::List))
    } else if same_text(name, "list-all") {
        Ok(Command::Run(Action::ListAll))
    } else {
        Ok(Command::Unknown(name.to_owned()))
    }
}

} // verus!
