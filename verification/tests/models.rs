use task_tracker::config::Config;
use task_tracker::models::{Task, TaskStatistics, TaskStatus};

#[test]
fn status_is_read_whatever_the_case() {
    assert_eq!(TaskStatus::from_str("pending"), Ok(TaskStatus::Pending));
    assert_eq!(TaskStatus::from_str("PENDING"), Ok(TaskStatus::Pending));
    assert_eq!(TaskStatus::from_str("Processing"), Ok(TaskStatus::Processing));
    assert_eq!(TaskStatus::from_str("pRoCeSsInG"), Ok(TaskStatus::Processing));
    assert_eq!(TaskStatus::from_str("completed"), Ok(TaskStatus::Completed));
    assert_eq!(TaskStatus::from_str("COMPLETED"), Ok(TaskStatus::Completed));
}

#[test]
fn unknown_status_is_refused() {
    for word in ["", "done", "pending ", " pending", "pendin", "complete", "processing!"] {
        assert_eq!(TaskStatus::from_str(word), Err("Invalid status".to_string()));
    }
}

#[test]
fn status_name_is_read_in_lower_case_only() {
    assert_eq!(TaskStatus::from_name("pending"), Ok(TaskStatus::Pending));
    assert_eq!(TaskStatus::from_name("processing"), Ok(TaskStatus::Processing));
    assert_eq!(TaskStatus::from_name("completed"), Ok(TaskStatus::Completed));
    assert_eq!(TaskStatus::from_name("Pending"), Err("Invalid status".to_string()));
    assert_eq!(TaskStatus::from_name(""), Err("Invalid status".to_string()));
}

#[test]
fn status_is_written_out_by_its_name() {
    assert_eq!(TaskStatus::Pending.name(), "Pending");
    assert_eq!(TaskStatus::Processing.name(), "Processing");
    assert_eq!(TaskStatus::Completed.name(), "Completed");
}

#[test]
fn new_task_is_pending_with_id_zero() {
    let t = Task::new("Write report", "Quarterly numbers");
    assert_eq!(t.id, 0);
    assert_eq!(t.title, "Write report");
    assert_eq!(t.description, "Quarterly numbers");
    assert_eq!(t.status, TaskStatus::Pending);
}

#[test]
fn new_task_is_stamped_with_the_time_in_utc() {
    let before = chrono::Utc::now();
    let t = Task::new("A", "a");
    let after = chrono::Utc::now();
    let stamp = chrono::DateTime::parse_from_rfc3339(&t.created_at).unwrap();
    assert_eq!(stamp.offset().local_minus_utc(), 0);
    assert!(before <= stamp && stamp <= after);
}

#[test]
fn task_with_timestamp_keeps_what_it_is_given() {
    let t = Task::with_timestamp("A", "a", "1996-12-19T16:39:57-08:00".to_string());
    assert_eq!(t.id, 0);
    assert_eq!(t.title, "A");
    assert_eq!(t.description, "a");
    assert_eq!(t.status, TaskStatus::Pending);
    assert_eq!(t.created_at, "1996-12-19T16:39:57-08:00");
}

#[test]
fn task_is_shown_on_one_line() {
    let mut t = Task::with_timestamp("Write", "the report", "2024-05-06T07:08:09+00:00".to_string());
    t.id = 42;
    assert_eq!(
        t.to_string(),
        "ID: 42 | Write | the report | Status: Pending | Created: 2024-05-06T07:08:09+00:00"
    );
    t.status = TaskStatus::Completed;
    t.id = -7;
    assert_eq!(
        t.to_string(),
        "ID: -7 | Write | the report | Status: Completed | Created: 2024-05-06T07:08:09+00:00"
    );
    t.status = TaskStatus::Processing;
    t.id = 0;
    t.title = String::new();
    assert_eq!(
        t.to_string(),
        "ID: 0 |  | the report | Status: Processing | Created: 2024-05-06T07:08:09+00:00"
    );
}

#[test]
fn clone_of_a_task_holds_the_same() {
    let mut t = Task::with_timestamp("A", "a", "now".to_string());
    t.id = 9;
    t.status = TaskStatus::Processing;
    let c = t.clone();
    assert_eq!(c.id, 9);
    assert_eq!(c.title, "A");
    assert_eq!(c.description, "a");
    assert_eq!(c.status, TaskStatus::Processing);
    assert_eq!(c.created_at, "now");
}

#[test]
fn default_statistics_are_zero() {
    let s = TaskStatistics::default();
    assert_eq!(s, TaskStatistics { total: 0, pending: 0, processing: 0, completed: 0 });
}

#[test]
fn default_config_names_the_store_and_four_workers() {
    let c = Config::default();
    assert_eq!(c.database_path, "tasks.db");
    assert_eq!(c.worker_threads, 4);
}
