use std::sync::mpsc::{channel, Receiver};
use task_tracker::cli::{Command, CommandLineInterface, CommandOutput};
use task_tracker::database::Database;
use task_tracker::models::{Task, TaskStatus};
use task_tracker::processor::TaskProcessor;

fn args(words: &[&str]) -> Vec<String> {
    words.iter().map(|w| w.to_string()).collect()
}

fn pool() -> (TaskProcessor, Receiver<i32>) {
    let (tx, rx) = channel();
    (TaskProcessor::new(tx), rx)
}

fn run(db: &mut Database, words: &[&str]) -> Result<CommandOutput, String> {
    let (processor, _rx) = pool();
    let a = args(words);
    CommandLineInterface::new(&a).run(db, &processor)
}

fn usage() -> Vec<String> {
    vec![
        "Usage: tasks <command> [args]".to_string(),
        "Commands:".to_string(),
        "  add <title> <description> - Add a new task".to_string(),
        "  list [status] - List tasks".to_string(),
        "  complete <id> - Mark task as complete".to_string(),
        "  process - Process pending tasks".to_string(),
        "  stats - Show task statistics".to_string(),
    ]
}

#[test]
fn command_is_named_by_the_second_argument() {
    let cases = [
        (vec!["tasks"], Command::Usage),
        (vec!["tasks", "add"], Command::Add),
        (vec!["tasks", "list", "pending"], Command::List),
        (vec!["tasks", "complete", "1"], Command::Complete),
        (vec!["tasks", "process"], Command::Process),
        (vec!["tasks", "stats"], Command::Stats),
        (vec!["tasks", "ADD"], Command::Usage),
        (vec!["tasks", "help"], Command::Usage),
        (vec!["tasks", ""], Command::Usage),
    ];
    for (words, expected) in cases {
        let a = args(&words);
        assert_eq!(CommandLineInterface::new(&a).command(), expected);
    }
}

#[test]
fn no_command_shows_the_usage() {
    let mut db = Database::new("tasks.db");
    let out = run(&mut db, &["tasks"]).unwrap();
    assert_eq!(out.lines, usage());
    assert!(!out.persist);
}

#[test]
fn unknown_command_shows_the_usage() {
    let mut db = Database::new("tasks.db");
    let out = run(&mut db, &["tasks", "remove", "1"]).unwrap();
    assert_eq!(out.lines, usage());
    assert!(!out.persist);
    assert_eq!(db.next_id(), 1);
}

#[test]
fn add_files_a_pending_task() {
    let mut db = Database::new("tasks.db");
    let out = run(&mut db, &["tasks", "add", "Buy milk", "two litres"]).unwrap();
    assert_eq!(out.lines, vec!["Task added successfully".to_string()]);
    assert!(out.persist);
    assert_eq!(db.next_id(), 2);
    let t = db.get_task(1).unwrap();
    assert_eq!(t.id, 1);
    assert_eq!(t.title, "Buy milk");
    assert_eq!(t.description, "two litres");
    assert_eq!(t.status, TaskStatus::Pending);
    assert!(chrono::DateTime::parse_from_rfc3339(&t.created_at).is_ok());
}

#[test]
fn add_wants_a_title_and_a_description() {
    let mut db = Database::new("tasks.db");
    for words in [vec!["tasks", "add"], vec!["tasks", "add", "only title"]] {
        let res = run(&mut db, &words);
        assert_eq!(res.err(), Some("Usage: add <title> <description>".to_string()));
    }
    assert_eq!(db.next_id(), 1);
}

#[test]
fn add_refuses_fields_that_are_not_valid() {
    let mut db = Database::new("tasks.db");
    let long = "x".repeat(256);
    let cases = [
        (vec!["tasks", "add", "", "d"], "Title cannot be empty"),
        (vec!["tasks", "add", "  ", "d"], "Title cannot be empty"),
        (vec!["tasks", "add", "t", ""], "Description cannot be empty"),
        (vec!["tasks", "add", long.as_str(), "d"], "Title too long (max 255 characters)"),
        (vec!["tasks", "add", "t", long.as_str()], "Description too long (max 255 characters)"),
        (vec!["tasks", "add", "", ""], "Title cannot be empty"),
    ];
    for (words, message) in cases {
        assert_eq!(run(&mut db, &words).err(), Some(message.to_string()));
    }
    assert_eq!(db.next_id(), 1);
    assert!(db.list_tasks(None).unwrap().is_empty());
}

#[test]
fn add_counts_the_length_of_a_field_in_characters() {
    let mut db = Database::new("tasks.db");
    let title = "\u{e9}".repeat(200);
    let description = "\u{e9}".repeat(255);
    let out = run(&mut db, &["tasks", "add", title.as_str(), description.as_str()]).unwrap();
    assert_eq!(out.lines, vec!["Task added successfully".to_string()]);
    assert_eq!(db.get_task(1).unwrap().title, title);
    let long = "\u{e9}".repeat(256);
    let res = run(&mut db, &["tasks", "add", long.as_str(), "d"]);
    assert_eq!(res.err(), Some("Title too long (max 255 characters)".to_string()));
    assert_eq!(db.next_id(), 2);
}

#[test]
fn add_reports_when_no_id_is_left() {
    let mut db = Database::restore("tasks.db", Vec::new(), i32::MAX).unwrap();
    let res = run(&mut db, &["tasks", "add", "t", "d"]);
    assert_eq!(res.err(), Some("No task id left".to_string()));
}

#[test]
fn list_shows_each_task_on_a_line() {
    let mut db = Database::new("tasks.db");
    db.add_task(Task::with_timestamp("A", "a", "T1".to_string())).unwrap();
    db.add_task(Task::with_timestamp("B", "b", "T2".to_string())).unwrap();
    db.complete_task(2).unwrap();
    let out = run(&mut db, &["tasks", "list"]).unwrap();
    assert!(!out.persist);
    let mut lines = out.lines;
    lines.sort();
    assert_eq!(
        lines,
        vec![
            "ID: 1 | A | a | Status: Pending | Created: T1".to_string(),
            "ID: 2 | B | b | Status: Completed | Created: T2".to_string(),
        ]
    );
}

#[test]
fn list_filters_by_the_status_named() {
    let mut db = Database::new("tasks.db");
    db.add_task(Task::with_timestamp("A", "a", "T1".to_string())).unwrap();
    db.add_task(Task::with_timestamp("B", "b", "T2".to_string())).unwrap();
    db.complete_task(2).unwrap();
    let out = run(&mut db, &["tasks", "list", "COMPLETED"]).unwrap();
    assert_eq!(out.lines, vec!["ID: 2 | B | b | Status: Completed | Created: T2".to_string()]);
    let out = run(&mut db, &["tasks", "list", "pending"]).unwrap();
    assert_eq!(out.lines, vec!["ID: 1 | A | a | Status: Pending | Created: T1".to_string()]);
    let out = run(&mut db, &["tasks", "list", "Processing"]).unwrap();
    assert!(out.lines.is_empty());
}

#[test]
fn list_refuses_an_unknown_status() {
    let mut db = Database::new("tasks.db");
    let res = run(&mut db, &["tasks", "list", "done"]);
    assert_eq!(res.err(), Some("Invalid status".to_string()));
}

#[test]
fn complete_marks_the_task() {
    let mut db = Database::new("tasks.db");
    db.add_task(Task::new("A", "a")).unwrap();
    let out = run(&mut db, &["tasks", "complete", "1"]).unwrap();
    assert_eq!(out.lines, vec!["Task 1 marked as complete".to_string()]);
    assert!(out.persist);
    assert_eq!(db.get_task(1).unwrap().status, TaskStatus::Completed);
}

#[test]
fn complete_wants_the_id_of_a_task() {
    let mut db = Database::new("tasks.db");
    db.add_task(Task::new("A", "a")).unwrap();
    let cases = [
        (vec!["tasks", "complete"], "Usage: complete <id>"),
        (vec!["tasks", "complete", "one"], "Invalid ID"),
        (vec!["tasks", "complete", ""], "Invalid ID"),
        (vec!["tasks", "complete", "1.5"], "Invalid ID"),
        (vec!["tasks", "complete", "99999999999"], "Invalid ID"),
        (vec!["tasks", "complete", "2"], "Task 2 not found"),
        (vec!["tasks", "complete", "-4"], "Task -4 not found"),
    ];
    for (words, message) in cases {
        assert_eq!(run(&mut db, &words).err(), Some(message.to_string()));
    }
    assert_eq!(db.get_task(1).unwrap().status, TaskStatus::Pending);
}

#[test]
fn process_dispatches_the_pending_tasks() {
    let (processor, rx) = pool();
    let mut db = Database::new("tasks.db");
    db.add_task(Task::new("A", "a")).unwrap();
    db.add_task(Task::new("B", "b")).unwrap();
    let a = args(&["tasks", "process"]);
    let out = CommandLineInterface::new(&a).run(&mut db, &processor).unwrap();
    assert_eq!(out.lines, vec!["Task processing completed".to_string()]);
    assert!(out.persist);
    drop(processor);
    let mut sent: Vec<i32> = rx.iter().collect();
    sent.sort();
    assert_eq!(sent, vec![1, 2]);
    assert_eq!(db.get_task(1).unwrap().status, TaskStatus::Processing);
    assert_eq!(db.get_task(2).unwrap().status, TaskStatus::Processing);
}

#[test]
fn process_reports_a_closed_channel() {
    let (processor, rx) = pool();
    drop(rx);
    let mut db = Database::new("tasks.db");
    db.add_task(Task::new("A", "a")).unwrap();
    let a = args(&["tasks", "process"]);
    let res = CommandLineInterface::new(&a).run(&mut db, &processor);
    assert_eq!(res.err(), Some("sending on a closed channel".to_string()));
}

#[test]
fn stats_shows_the_counts() {
    let mut db = Database::new("tasks.db");
    for _ in 0..12 {
        db.add_task(Task::new("A", "a")).unwrap();
    }
    db.complete_task(1).unwrap();
    db.get_task(2).unwrap().status = TaskStatus::Processing;
    db.get_task(3).unwrap().status = TaskStatus::Processing;
    let out = run(&mut db, &["tasks", "stats"]).unwrap();
    assert!(!out.persist);
    assert_eq!(
        out.lines,
        vec![
            "Task Statistics:".to_string(),
            "Total: 12".to_string(),
            "Pending: 9".to_string(),
            "Processing: 2".to_string(),
            "Completed: 1".to_string(),
        ]
    );
}

#[test]
fn stats_of_the_empty_store_are_zero() {
    let mut db = Database::new("tasks.db");
    let out = run(&mut db, &["tasks", "stats"]).unwrap();
    assert_eq!(
        out.lines,
        vec![
            "Task Statistics:".to_string(),
            "Total: 0".to_string(),
            "Pending: 0".to_string(),
            "Processing: 0".to_string(),
            "Completed: 0".to_string(),
        ]
    );
}

#[test]
fn commands_in_a_row() {
    let (processor, _rx) = pool();
    let mut db = Database::new("tasks.db");
    for words in [
        vec!["tasks", "add", "A", "a"],
        vec!["tasks", "add", "B", "b"],
        vec!["tasks", "process"],
        vec!["tasks", "complete", "1"],
    ] {
        let a = args(&words);
        assert!(CommandLineInterface::new(&a).run(&mut db, &processor).is_ok());
    }
    let a = args(&["tasks", "stats"]);
    let out = CommandLineInterface::new(&a).run(&mut db, &processor).unwrap();
    assert_eq!(out.lines[1..], ["Total: 2", "Pending: 0", "Processing: 1", "Completed: 1"]);
}
