//! The task record, its status and the per-status counts.

use crate::clock::current_timestamp;
use crate::text::{decimal, decimal_string, lowercase_text, lowercased, same_text};
use vstd::prelude::*;
use vstd::string::*;

verus! {

/// Where a task stands in its life: created, handed to the workers, done.
#[derive(Clone, Copy, Debug, PartialEq, Eq, Structural)]
pub enum TaskStatus {
    Pending,
    Processing,
    Completed,
}

impl TaskStatus {
    /// The status that the lower-case word `name` stands for.
    pub open spec fn named(name: Seq<char>) -> Option<TaskStatus> {
        if name == "pending"@ {
            Some(TaskStatus::Pending)
        } else if name == "processing"@ {
            Some(TaskStatus::Processing)
        } else if name == "completed"@ {
            Some(TaskStatus::Completed)
        } else {
            None
        }
    }

    /// The status as it is written out.
    pub open spec fn label(self) -> Seq<char> {
        match self {
            TaskStatus::Pending => "Pending"@,
            TaskStatus::Processing => "Processing"@,
            TaskStatus::Completed => "Completed"@,
        }
    }

    /// Reads a status from its lower-case word: `pending`, `processing` or
    /// `completed`. Any other text is refused.
    pub fn from_name(name: &str) -> (res: Result<TaskStatus, String>)
        ensures
            match res {
                Ok(status) => TaskStatus::named(name@) == Some(status),
                Err(e) => TaskStatus::named(name@) is None && e@ == "Invalid status"@,
            },
    {
        if same_text(name, "pending") {
            Ok(TaskStatus::Pending)
        } else if same_text(name, "processing") {
            Ok(TaskStatus::Processing)
        } else if same_text(name, "completed") {
            Ok(TaskStatus::Completed)
        } else {
            Err("Invalid status".to_owned())
        }
    }

    /// Reads a status whatever the case of its letters.
    pub fn from_str(s: &str) -> (res: Result<TaskStatus, String>)
        ensures
            match res {
                Ok(status) => TaskStatus::named(lowercased(s@)) == Some(status),
                Err(e) => TaskStatus::named(lowercased(s@)) is None && e@ == "Invalid status"@,
            },
    {
        let lower = lowercase_text(s);
        TaskStatus::from_name(lower.as_str())
    }

    /// The status as it is written out: `Pending`, `Processing` or `Completed`.
    pub fn name(&self) -> (s: &'static str)
        ensures
            s@ == self.label(),
    {
        match self {
            TaskStatus::Pending => "Pending",
            TaskStatus::Processing => "Processing",
            TaskStatus::Completed => "Completed",
        }
    }
}

/// The mathematical value of a [`Task`].
pub struct TaskView {
    pub id: i32,
    pub title: Seq<char>,
    pub description: Seq<char>,
    pub status: TaskStatus,
    pub created_at: Seq<char>,
}

/// A unit of trackable work.
#[derive(Debug)]
pub struct Task {
    pub id: i32,
    pub title: String,
    pub description: String,
    pub status: TaskStatus,
    pub created_at: String,
}

impl TaskView {
    /// The line that shows the task to the user.
    pub open spec fn rendered(self) -> Seq<char> {
        "ID: "@ + decimal(self.id as int) + " | "@ + self.title + " | "@ + self.description
            + " | Status: "@ + self.status.label() + " | Created: "@ + self.created_at
    }
}

impl View for Task {
    type V = TaskView;

    open spec fn view(&self) -> TaskView {
        TaskView {
            id: self.id,
            title: self.title@,
            description: self.description@,
            status: self.status,
            created_at: self.created_at@,
        }
    }
}

impl Clone for Task {
    fn clone(&self) -> (copy: Task)
        ensures
            copy@ == self@,
    {
        Task {
            id: self.id,
            title: self.title.clone(),
            description: self.description.clone(),
            status: self.status,
            created_at: self.created_at.clone(),
        }
    }
}

impl Task {
    /// A pending task with id 0, the given texts and the current time as
    /// its time of creation.
    pub fn new(title: &str, description: &str) -> (task: Task)
        ensures
            task@.id == 0,
            task@.title == title@,
            task@.description == description@,
            task@.status == TaskStatus::Pending,
    {
        Task::with_timestamp(title, description, current_timestamp())
    }

    /// The line that shows the task to the user.
    pub fn to_string(&self) -> (line: String)
        ensures
            line@ == self@.rendered(),
    {
        let mut line = "ID: ".to_owned();
        line.append(decimal_string(self.id as i64).as_str());
        line.append(" | ");
        line.append(self.title.as_str());
        line.append(" | ");
        line.append(self.description.as_str());
        line.append(" | Status: ");
        line.append(self.status.name());
        line.append(" | Created: ");
        line.append(self.created_at.as_str());
        line
    }

    /// A pending task with id 0 and the given texts.
    pub fn with_timestamp(title: &str, description: &str, created_at: String) -> (task: Task)
        ensures
            task@ == (TaskView {
                id: 0,
                title: title@,
                description: description@,
                status: TaskStatus::Pending,
                created_at: created_at@,
            }),
    {
        Task {
            id: 0,
            title: title.to_owned(),
            description: description.to_owned(),
            status: TaskStatus::Pending,
            created_at,
        }
    }
}

/// How many tasks the store holds, in all and by status.
#[derive(Clone, Copy, Debug, PartialEq, Eq, Structural)]
pub struct TaskStatistics {
    pub total: u32,
    pub pending: u32,
    pub processing: u32,
    pub completed: u32,
}

impl Default for TaskStatistics {
    /// The counts of the empty store.
    fn default() -> (stats: TaskStatistics)
        ensures
            stats == (TaskStatistics { total: 0, pending: 0, processing: 0, completed: 0 }),
    {
        TaskStatistics { total: 0, pending: 0, processing: 0, completed: 0 }
    }
}

} // verus!
