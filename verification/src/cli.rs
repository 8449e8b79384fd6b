//! The command layer: what each command does to the store, and what it
//! says to the user.

use crate::database::{not_found_text, Database, StoreView};
use crate::models::{Task, TaskStatus, TaskView};
use crate::processor::{closed_channel_text, TaskProcessor};
use crate::text::{
    decimal, decimal_string, lowercased, parse_i32, parsed_i32, same_text, trimmed,
};
use crate::utils::{field_verdict, validate_input};
use vstd::prelude::*;
use vstd::string::*;

verus! {

/// The commands of the program.
#[derive(Clone, Copy, Debug, PartialEq, Eq, Structural)]
pub enum Command {
    Usage,
    Add,
    List,
    Complete,
    Process,
    Stats,
}

/// The command that the arguments ask for. The first argument is the
/// program's name, the second the command's; where that is missing or
/// unknown, the usage is shown.
pub open spec fn command_of(args: Seq<Seq<char>>) -> Command {
    if args.len() < 2 {
        Command::Usage
    } else if args[1] == "add"@ {
        Command::Add
    } else if args[1] == "list"@ {
        Command::List
    } else if args[1] == "complete"@ {
        Command::Complete
    } else if args[1] == "process"@ {
        Command::Process
    } else if args[1] == "stats"@ {
        Command::Stats
    } else {
        Command::Usage
    }
}

/// The mathematical value of a [`CommandOutput`].
pub struct OutputView {
    pub lines: Seq<Seq<char>>,
    pub persist: bool,
}

/// What a command that succeeded leaves to do: the lines to print, and
/// whether the store has changed and is to be saved first.
pub struct CommandOutput {
    pub lines: Vec<String>,
    pub persist: bool,
}

impl View for CommandOutput {
    type V = OutputView;

    open spec fn view(&self) -> OutputView {
        OutputView { lines: self.lines@.map_values(|line: String| line@), persist: self.persist }
    }
}

/// The value of a command's result: of its output, or the text of its
/// error.
pub open spec fn outcome(res: Result<CommandOutput, String>) -> Result<OutputView, Seq<char>> {
    match res {
        Ok(output) => Ok(output@),
        Err(e) => Err(e@),
    }
}

/// The usage of the program called `program`.
pub open spec fn usage_lines(program: Seq<char>) -> Seq<Seq<char>> {
    seq![
        "Usage: "@ + program + " <command> [args]"@,
        "Commands:"@,
        "  add <title> <description> - Add a new task"@,
        "  list [status] - List tasks"@,
        "  complete <id> - Mark task as complete"@,
        "  process - Process pending tasks"@,
        "  stats - Show task statistics"@,
    ]
}

/// The report of the counts of `store`.
pub open spec fn stats_lines(store: StoreView) -> Seq<Seq<char>> {
    seq![
        "Task Statistics:"@,
        "Total: "@ + decimal(store.total() as int),
        "Pending: "@ + decimal(store.count(TaskStatus::Pending) as int),
        "Processing: "@ + decimal(store.count(TaskStatus::Processing) as int),
        "Completed: "@ + decimal(store.count(TaskStatus::Completed) as int),
    ]
}

/// What is said when the task `id` was completed.
pub open spec fn completed_text(id: i32) -> Seq<char> {
    "Task "@ + decimal(id as int) + " marked as complete"@
}

/// What `add` does. It wants a title and a description, both valid
/// fields, and an id that is left; an empty title or description is
/// refused in any case. The new task is pending; the time of its creation
/// is the clock's.
pub open spec fn add_result(
    args: Seq<Seq<char>>,
    before: StoreView,
    after: StoreView,
    out: Result<OutputView, Seq<char>>,
) -> bool {
    &&& args.len() >= 4 && (args[2].len() == 0 || args[3].len() == 0) ==> out is Err && after
        == before
    &&& if args.len() < 4 {
        out == Err::<OutputView, Seq<char>>("Usage: add <title> <description>"@) && after == before
    } else if let Err(e) = field_verdict(trimmed(args[2]), args[2].len(), "Title"@) {
        out == Err::<OutputView, Seq<char>>(e) && after == before
    } else if let Err(e) = field_verdict(trimmed(args[3]), args[3].len(), "Description"@) {
        out == Err::<OutputView, Seq<char>>(e) && after == before
    } else if before.next_id == i32::MAX {
        out == Err::<OutputView, Seq<char>>("No task id left"@) && after == before
    } else {
        &&& out == Ok::<OutputView, Seq<char>>(
            OutputView { lines: seq!["Task added successfully"@], persist: true },
        )
        &&& exists|created_at: Seq<char>|
            after == #[trigger] before.added(
                TaskView {
                    id: 0,
                    title: args[2],
                    description: args[3],
                    status: TaskStatus::Pending,
                    created_at,
                },
            )
    }
}

/// The status that `list` filters by: the one that the third argument
/// names, whatever the case of its letters, or none.
pub open spec fn list_filter(args: Seq<Seq<char>>) -> Option<TaskStatus> {
    if args.len() > 2 {
        TaskStatus::named(lowercased(args[2]))
    } else {
        None
    }
}

/// What `list` does. With a third argument it shows the tasks with that
/// status and refuses a word that names none; without, it shows all
/// tasks. Each task takes a line; their order is not fixed.
pub open spec fn list_result(
    args: Seq<Seq<char>>,
    store: StoreView,
    out: Result<OutputView, Seq<char>>,
) -> bool {
    if args.len() > 2 && list_filter(args) is None {
        out == Err::<OutputView, Seq<char>>("Invalid status"@)
    } else {
        exists|list: Seq<TaskView>|
            {
                &&& #[trigger] store.lists(list_filter(args), list)
                &&& out == Ok::<OutputView, Seq<char>>(
                    OutputView {
                        lines: list.map_values(|task: TaskView| task.rendered()),
                        persist: false,
                    },
                )
            }
    }
}

/// What `complete` says. It wants the id of a task of the store, in
/// decimal.
pub open spec fn complete_outcome(args: Seq<Seq<char>>, store: StoreView) -> Result<
    OutputView,
    Seq<char>,
> {
    if args.len() < 3 {
        Err("Usage: complete <id>"@)
    } else {
        match parsed_i32(args[2]) {
            None => Err("Invalid ID"@),
            Some(id) => if store.tasks.contains_key(id) {
                Ok(OutputView { lines: seq![completed_text(id)], persist: true })
            } else {
                Err(not_found_text(id))
            },
        }
    }
}

/// The store after `complete`: with the task completed where the command
/// succeeds, as it was where it fails.
pub open spec fn store_after_complete(args: Seq<Seq<char>>, store: StoreView) -> StoreView {
    if complete_outcome(args, store) is Ok {
        store.completed(parsed_i32(args[2])->0)
    } else {
        store
    }
}

/// What `process` does: it dispatches every pending task, or, where a
/// send fails, some of them.
pub open spec fn process_result(
    before: StoreView,
    after: StoreView,
    out: Result<OutputView, Seq<char>>,
) -> bool {
    match out {
        Ok(output) => output == (OutputView {
            lines: seq!["Task processing completed"@],
            persist: true,
        }) && after == before.dispatched(),
        Err(e) => before.partly_dispatched(after) && e == closed_channel_text(),
    }
}

/// The arguments that the program was called with.
pub struct CommandLineInterface<'a> {
    args: &'a Vec<String>,
}

impl<'a> View for CommandLineInterface<'a> {
    type V = Seq<Seq<char>>;

    closed spec fn view(&self) -> Seq<Seq<char>> {
        self.args@.map_values(|arg: String| arg@)
    }
}

/// An output of one line.
fn one_line(line: String, persist: bool) -> (output: CommandOutput)
    ensures
        output@ == (OutputView { lines: seq![line@], persist }),
{
    let mut lines: Vec<String> = Vec::new();
    lines.push(line);
    let output = CommandOutput { lines, persist };
    assert(output@.lines =~= seq![line@]);
    output
}

/// A line made of a label and a count.
fn count_line(label: &str, count: u32) -> (line: String)
    ensures
        line@ == label@ + decimal(count as int),
{
    let mut line = label.to_owned();
    line.append(decimal_string(count as i64).as_str());
    line
}

impl<'a> CommandLineInterface<'a> {
    /// The command layer for the arguments `args`, the program's name
    /// first.
    pub fn new(args: &'a Vec<String>) -> (cli: Self)
        ensures
            cli@ == args@.map_values(|arg: String| arg@),
    {
        CommandLineInterface { args }
    }

    /// The command that the arguments ask for.
    pub fn command(&self) -> (command: Command)
        ensures
            command == command_of(self@),
    {
        if self.args.len() < 2 {
            return Command::Usage;
        }
        let name = self.args[1].as_str();
        if same_text(name, "add") {
            Command::Add
        } else if same_text(name, "list") {
            Command::List
        } else if same_text(name, "complete") {
            Command::Complete
        } else if same_text(name, "process") {
            Command::Process
        } else if same_text(name, "stats") {
            Command::Stats
        } else {
            Command::Usage
        }
    }

    /// Runs the command that the arguments ask for on the store `db`,
    /// dispatching through `processor`. The caller saves the store where
    /// the output asks for it, and then prints the output's lines. The
    /// arguments hold at least the program's name.
    pub fn run(&self, db: &mut Database, processor: &TaskProcessor) -> (res: Result<
        CommandOutput,
        String,
    >)
        requires
            self@.len() > 0,
            old(db).wf(),
        ensures
            final(db).wf(),
            match command_of(self@) {
                Command::Usage => final(db)@ == old(db)@ && outcome(res) == Ok::<
                    OutputView,
                    Seq<char>,
                >(OutputView { lines: usage_lines(self@[0]), persist: false }),
                Command::Add => add_result(self@, old(db)@, final(db)@, outcome(res)),
                Command::List => final(db)@ == old(db)@ && list_result(
                    self@,
                    old(db)@,
                    outcome(res),
                ),
                Command::Complete => final(db)@ == store_after_complete(self@, old(db)@)
                    && outcome(res) == complete_outcome(self@, old(db)@),
                Command::Process => process_result(old(db)@, final(db)@, outcome(res)),
                Command::Stats => final(db)@ == old(db)@ && outcome(res) == Ok::<
                    OutputView,
                    Seq<char>,
                >(OutputView { lines: stats_lines(old(db)@), persist: false }),
            },
    {
        match self.command() {
            Command::Usage => Ok(self.usage()),
            Command::Add => self.handle_add(db),
            Command::List => self.handle_list(db),
            Command::Complete => self.handle_complete(db),
            Command::Process => self.handle_process(db, processor),
            Command::Stats => self.handle_stats(db),
        }
    }

    fn usage(&self) -> (output: CommandOutput)
        requires
            self@.len() > 0,
        ensures
            output@ == (OutputView { lines: usage_lines(self@[0]), persist: false }),
    {
        let mut first = "Usage: ".to_owned();
        first.append(self.args[0].as_str());
        first.append(" <command> [args]");
        let mut lines: Vec<String> = Vec::new();
        lines.push(first);
        lines.push("Commands:".to_owned());
        lines.push("  add <title> <description> - Add a new task".to_owned());
        lines.push("  list [status] - List tasks".to_owned());
        lines.push("  complete <id> - Mark task as complete".to_owned());
        lines.push("  process - Process pending tasks".to_owned());
        lines.push("  stats - Show task statistics".to_owned());
        let output = CommandOutput { lines, persist: false };
        assert(output@.lines =~= usage_lines(self@[0]));
        output
    }

    fn handle_add(&self, db: &mut Database) -> (res: Result<CommandOutput, String>)
        requires
            old(db).wf(),
        ensures
            final(db).wf(),
            add_result(self@, old(db)@, final(db)@, outcome(res)),
    {
        if self.args.len() < 4 {
            return Err("Usage: add <title> <description>".to_owned());
        }
        let title = self.args[2].as_str();
        let description = self.args[3].as_str();
        match validate_input(title, "Title") {
            Ok(()) => {},
            Err(e) => {
                return Err(e);
            },
        }
        match validate_input(description, "Description") {
            Ok(()) => {},
            Err(e) => {
                return Err(e);
            },
        }
        let task = Task::new(title, description);
        match db.add_task(task) {
            Ok(_) => Ok(one_line("Task added successfully".to_owned(), true)),
            Err(e) => Err(e),
        }
    }

    fn handle_list(&self, db: &Database) -> (res: Result<CommandOutput, String>)
        requires
            db.wf(),
        ensures
            list_result(self@, db@, outcome(res)),
    {
        let status = if self.args.len() > 2 {
            match TaskStatus::from_str(self.args[2].as_str()) {
                Ok(status) => Some(status),
                Err(e) => {
                    return Err(e);
                },
            }
        } else {
            None
        };
        let tasks = match db.list_tasks(status) {
            Ok(tasks) => tasks,
            Err(e) => {
                return Err(e);
            },
        };
        let ghost list = tasks@.map_values(|t: &Task| t@);
        let mut lines: Vec<String> = Vec::new();
        let mut i: usize = 0;
        while i < tasks.len()
            invariant
                i <= tasks.len(),
                lines.len() == i,
                list == tasks@.map_values(|t: &Task| t@),
                forall|j: int| 0 <= j < i ==> (#[trigger] lines[j])@ == list[j].rendered(),
            decreases tasks.len() - i,
        {
            lines.push(tasks[i].to_string());
            i += 1;
        }
        let output = CommandOutput { lines, persist: false };
        assert(output@.lines =~= list.map_values(|task: TaskView| task.rendered()));
        Ok(output)
    }

    fn handle_complete(&self, db: &mut Database) -> (res: Result<CommandOutput, String>)
        requires
            old(db).wf(),
        ensures
            final(db).wf(),
            final(db)@ == store_after_complete(self@, old(db)@),
            outcome(res) == complete_outcome(self@, old(db)@),
    {
        if self.args.len() < 3 {
            return Err("Usage: complete <id>".to_owned());
        }
        let id = match parse_i32(self.args[2].as_str()) {
            Some(id) => id,
            None => {
                return Err("Invalid ID".to_owned());
            },
        };
        match db.complete_task(id) {
            Ok(()) => {
                let mut line = "Task ".to_owned();
                line.append(decimal_string(id as i64).as_str());
                line.append(" marked as complete");
                Ok(one_line(line, true))
            },
            Err(e) => Err(e),
        }
    }

    fn handle_process(&self, db: &mut Database, processor: &TaskProcessor) -> (res: Result<
        CommandOutput,
        String,
    >)
        requires
            old(db).wf(),
        ensures
            final(db).wf(),
            process_result(old(db)@, final(db)@, outcome(res)),
    {
        match processor.process_tasks(db) {
            Ok(()) => Ok(one_line("Task processing completed".to_owned(), true)),
            Err(e) => Err(e),
        }
    }

    fn handle_stats(&self, db: &Database) -> (res: Result<CommandOutput, String>)
        requires
            db.wf(),
        ensures
            outcome(res) == Ok::<OutputView, Seq<char>>(
                OutputView { lines: stats_lines(db@), persist: false },
            ),
    {
        let stats = match db.get_statistics() {
            Ok(stats) => stats,
            Err(e) => {
                return Err(e);
            },
        };
        let mut lines: Vec<String> = Vec::new();
        lines.push("Task Statistics:".to_owned());
        lines.push(count_line("Total: ", stats.total));
        lines.push(count_line("Pending: ", stats.pending));
        lines.push(count_line("Processing: ", stats.processing));
        lines.push(count_line("Completed: ", stats.completed));
        let output = CommandOutput { lines, persist: false };
        assert(output@.lines =~= stats_lines(db@));
        Ok(output)
    }
}

} // verus!
