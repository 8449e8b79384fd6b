use std::sync::mpsc::{channel, SendError};
use task_tracker::database::Database;
use task_tracker::models::{Task, TaskStatistics, TaskStatus};
use task_tracker::processor::{send_outcome, TaskProcessor};

fn task(title: &str, description: &str) -> Task {
    Task::with_timestamp(title, description, "2024-01-01T00:00:00+00:00".to_string())
}

#[test]
fn add_process_complete_scenario() {
    let (tx, rx) = channel();
    let processor = TaskProcessor::new(tx);
    let mut db = Database::new("tasks.db");
    assert_eq!(db.add_task(task("A", "a")), Ok(1));
    assert_eq!(db.add_task(task("B", "b")), Ok(2));
    assert_eq!(processor.process_tasks(&mut db), Ok(()));
    assert_eq!(db.get_task(1).unwrap().status, TaskStatus::Processing);
    assert_eq!(db.get_task(2).unwrap().status, TaskStatus::Processing);
    assert_eq!(
        db.get_statistics().unwrap(),
        TaskStatistics { total: 2, pending: 0, processing: 2, completed: 0 }
    );
    assert_eq!(db.complete_task(1), Ok(()));
    assert_eq!(
        db.get_statistics().unwrap(),
        TaskStatistics { total: 2, pending: 0, processing: 1, completed: 1 }
    );
    drop(rx);
}

#[test]
fn process_sends_each_pending_id_once() {
    let (tx, rx) = channel();
    let processor = TaskProcessor::new(tx);
    let mut db = Database::new("tasks.db");
    for name in ["A", "B", "C", "D", "E"] {
        db.add_task(task(name, "x")).unwrap();
    }
    db.complete_task(2).unwrap();
    db.get_task(4).unwrap().status = TaskStatus::Processing;
    assert_eq!(processor.process_tasks(&mut db), Ok(()));
    drop(processor);
    let mut sent: Vec<i32> = rx.iter().collect();
    sent.sort();
    assert_eq!(sent, vec![1, 3, 5]);
    assert_eq!(db.get_task(2).unwrap().status, TaskStatus::Completed);
    assert_eq!(db.get_task(4).unwrap().status, TaskStatus::Processing);
    for id in [1, 3, 5] {
        assert_eq!(db.get_task(id).unwrap().status, TaskStatus::Processing);
    }
}

#[test]
fn process_leaves_later_tasks_pending() {
    let (tx, rx) = channel();
    let processor = TaskProcessor::new(tx);
    let mut db = Database::new("tasks.db");
    db.add_task(task("A", "a")).unwrap();
    assert_eq!(processor.process_tasks(&mut db), Ok(()));
    db.add_task(task("B", "b")).unwrap();
    assert_eq!(db.get_task(1).unwrap().status, TaskStatus::Processing);
    assert_eq!(db.get_task(2).unwrap().status, TaskStatus::Pending);
    assert_eq!(rx.try_recv(), Ok(1));
    assert!(rx.try_recv().is_err());
}

#[test]
fn process_with_nothing_pending_sends_nothing() {
    let (tx, rx) = channel();
    let processor = TaskProcessor::new(tx);
    let mut db = Database::new("tasks.db");
    db.add_task(task("A", "a")).unwrap();
    db.complete_task(1).unwrap();
    assert_eq!(processor.process_tasks(&mut db), Ok(()));
    assert!(rx.try_recv().is_err());
    assert_eq!(db.get_task(1).unwrap().status, TaskStatus::Completed);
}

#[test]
fn process_succeeds_on_a_closed_channel_when_nothing_is_pending() {
    let (tx, rx) = channel();
    drop(rx);
    let processor = TaskProcessor::new(tx);
    let mut db = Database::new("tasks.db");
    assert_eq!(processor.process_tasks(&mut db), Ok(()));
}

#[test]
fn process_stops_at_the_first_failed_send() {
    let (tx, rx) = channel();
    drop(rx);
    let processor = TaskProcessor::new(tx);
    let mut db = Database::new("tasks.db");
    db.add_task(task("A", "a")).unwrap();
    db.add_task(task("B", "b")).unwrap();
    db.add_task(task("C", "c")).unwrap();
    db.complete_task(3).unwrap();
    let res = processor.process_tasks(&mut db);
    assert_eq!(res, Err("sending on a closed channel".to_string()));
    assert_eq!(
        db.get_statistics().unwrap(),
        TaskStatistics { total: 3, pending: 1, processing: 1, completed: 1 }
    );
    assert_eq!(db.get_task(3).unwrap().status, TaskStatus::Completed);
}

#[test]
fn failed_send_is_reported_as_a_closed_channel() {
    assert_eq!(send_outcome(Ok(())), Ok(()));
    assert_eq!(send_outcome(Err(SendError(7))), Err("sending on a closed channel".to_string()));
    assert_eq!(SendError(7).to_string(), "sending on a closed channel");
}
