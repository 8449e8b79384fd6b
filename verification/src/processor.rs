//! The dispatch of pending tasks to the workers.

use crate::database::Database;
use crate::models::TaskStatus;
use std::sync::mpsc::{SendError, Sender};
use vstd::prelude::*;

verus! {

/// The sending end of a channel of the standard library.
#[verifier::external_type_specification]
#[verifier::external_body]
#[verifier::reject_recursive_types(T)]
pub struct ExSender<T>(Sender<T>);

/// The error of a send on a channel whose receiving end is gone.
#[verifier::external_type_specification]
#[verifier::external_body]
#[verifier::reject_recursive_types(T)]
pub struct ExSendError<T>(SendError<T>);

/// Calls `Sender::send`, which puts `id` on the channel, or fails where the
/// receiving end is gone. Whether it fails depends on the other end, so
/// nothing is claimed of the result.
#[verifier::external_body]
fn send_id(sender: &Sender<i32>, id: i32) -> Result<(), SendError<i32>> {
    sender.send(id)
}

/// What is said when the workers' channel is closed.
pub open spec fn closed_channel_text() -> Seq<char> {
    "sending on a closed channel"@
}

/// What a send comes to: nothing where it went through, and where the
/// channel was closed the words for that.
pub fn send_outcome(sent: Result<(), SendError<i32>>) -> (res: Result<(), String>)
    ensures
        res is Ok <==> sent is Ok,
        res matches Err(e) ==> e@ == closed_channel_text(),
{
    match sent {
        Ok(()) => Ok(()),
        Err(_) => Err("sending on a closed channel".to_owned()),
    }
}

/// The side of the worker pool that hands out work: it holds the sending
/// end of the channel from which the workers take task ids.
pub struct TaskProcessor {
    sender: Sender<i32>,
}

impl TaskProcessor {
    /// The sending end that the processor dispatches to.
    pub closed spec fn channel(&self) -> Sender<i32> {
        self.sender
    }

    /// A processor that dispatches to the workers behind `sender`.
    pub fn new(sender: Sender<i32>) -> (processor: TaskProcessor)
        ensures
            processor.channel() == sender,
    {
        TaskProcessor { sender }
    }

    /// Marks every pending task as being processed and sends its id to the
    /// workers, task by task. It does not wait for the workers. Where a
    /// send fails it stops there: the task just marked and those before it
    /// stay marked, the others stay pending.
    pub fn process_tasks(&self, db: &mut Database) -> (res: Result<(), String>)
        requires
            old(db).wf(),
        ensures
            final(db).wf(),
            old(db)@.count(TaskStatus::Pending) == 0 ==> res is Ok,
            match res {
                Ok(()) => final(db)@ == old(db)@.dispatched(),
                Err(e) => old(db)@.partly_dispatched(final(db)@) && e@ == closed_channel_text(),
            },
    {
        let ghost start = db@;
        let ids = db.pending_ids();
        proof {
            ids@.unique_seq_to_set();
        }
        let ghost mut sent: Set<i32> = Set::empty();
        let mut i: usize = 0;
        proof {
            assert(start.processing(sent).tasks =~= start.tasks);
        }
        while i < ids.len()
            invariant
                i <= ids.len(),
                start == old(db)@,
                start.count(TaskStatus::Pending) == ids.len(),
                start.wf(),
                db.wf(),
                ids@.no_duplicates(),
                ids@.to_set() == start.ids_with(TaskStatus::Pending),
                sent == ids@.take(i as int).to_set(),
                db@ == start.processing(sent),
            decreases ids.len() - i,
        {
            let id = ids[i];
            proof {
                assert(ids@.take(i + 1) =~= ids@.take(i as int).push(id));
                ids@.take(i as int).lemma_push_to_set_commute(id);
                sent = sent.insert(id);
            }
            match db.get_task(id) {
                Some(task) => {
                    task.status = TaskStatus::Processing;
                },
                None => {},
            }
            assert(db@.tasks =~= start.processing(sent).tasks);
            match send_outcome(send_id(&self.sender, id)) {
                Ok(()) => {},
                Err(e) => {
                    proof {
                        vstd::seq_lib::seq_to_set_is_finite(ids@.take(i + 1));
                    }
                    return Err(e);
                },
            }
            i += 1;
        }
        proof {
            assert(ids@.take(ids.len() as int) =~= ids@);
        }
        Ok(())
    }
}

} // verus!
