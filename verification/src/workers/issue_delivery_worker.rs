//! The delivery worker.
//!
//! A turn of a worker is a small state machine. The worker takes a task
//! from the queue, which marks the task as held, so that no other worker is
//! handed it. It then sends the task's issue to the task's recipient, or
//! skips the sending where the stored address is no address, and removes
//! the task whatever came of the sending: each task is attempted once and
//! never again.
//!
//! The machine decides; its caller acts. [`begin_turn`] and [`turn_step`]
//! say what is to be done next, the caller does it, against whatever store
//! and transport it has, and reports what happened. [`try_execute_task`]
//! is such a caller, for the store in memory.

use crate::domain::{email_is_valid, SubscriberEmail};
use crate::store::{
    first_pending, has_issue, has_pending, lemma_has_first_pending, locked_at, with_queue,
    without_task, DeliveryTask, NewsletterIssue, Store, StoreView, TaskView,
};
use vstd::prelude::*;

verus! {

/// How one turn of a worker ended.
#[derive(Debug, Clone, Copy, PartialEq, Eq, Structural)]
pub enum ExecutionOutcome {
    /// A task was taken and has been removed.
    TaskCompleted,
    /// No task was there to take.
    EmptyQueue,
}

/// Why one turn of a worker failed.
#[derive(Debug, Clone, Copy, PartialEq, Eq, Structural)]
pub enum ExecutionError {
    /// The store failed while a task was taken or removed. The turn is
    /// worth trying again soon.
    TransientError,
    /// Anything else. The turn is given up.
    FatalError,
}

/// How long a worker waits after a turn that found the queue empty.
pub const EMPTY_QUEUE_PAUSE_SECS: u64 = 10;

/// How long a worker waits after a turn in which the store failed.
pub const TRANSIENT_ERROR_PAUSE_SECS: u64 = 1;

/// What came of the one attempt to deliver a task.
#[derive(Debug, Clone, Copy, PartialEq, Eq, Structural)]
pub enum Attempt {
    /// The transport accepted the email.
    Delivered,
    /// The transport refused the email, or did not answer in time.
    NotDelivered,
    /// Nothing was sent: the stored address is no address.
    InvalidAddress,
}

/// Where a turn of a worker stands.
#[derive(Debug)]
pub enum Turn {
    /// The worker has asked for a task.
    Taking,
    /// The worker holds a task with a valid address and has asked for the
    /// task's issue.
    Fetching { task: DeliveryTask, recipient: SubscriberEmail },
    /// The worker has asked for the issue to be sent.
    Sending { task: DeliveryTask },
    /// The worker has asked for its task to be removed.
    Removing { task: DeliveryTask },
    /// The turn is over.
    Over,
}

/// What a worker is told of the thing it asked for.
#[derive(Debug)]
pub enum TurnEvent {
    /// The store has handed out a task, or has none to hand out.
    Took(Option<DeliveryTask>),
    /// The store has found the issue.
    Fetched(NewsletterIssue),
    /// The transport has answered; `true` where it accepted the email.
    Sent(bool),
    /// The store has removed the task.
    Removed,
    /// The store could not do what was asked of it.
    Failed,
}

/// What a worker asks for next.
#[derive(Debug)]
pub enum TurnAction {
    /// Take a task from the queue that no other worker holds, and hold it.
    Take,
    /// Look the issue up.
    Fetch { issue_id: u128 },
    /// Send the issue to the recipient.
    Send { recipient: SubscriberEmail, issue: NewsletterIssue },
    /// Remove the task from the queue, for good. The attempt is told for
    /// the log; the task goes whatever came of it.
    Remove { task: DeliveryTask, attempt: Attempt },
    /// End the turn with this outcome.
    Finish(ExecutionOutcome),
    /// End the turn with this error, and let go of the task that is held,
    /// if one is: it stays in the queue.
    GiveUp { task: Option<DeliveryTask>, error: ExecutionError },
}

/// How a turn begins: the worker asks for a task.
pub fn begin_turn() -> (begun: (Turn, TurnAction))
    ensures
        begun.0 is Taking,
        begun.1 is Take,
{
    (Turn::Taking, TurnAction::Take)
}

/// The task that a turn holds, if it holds one.
pub open spec fn held_task(turn: Turn) -> Option<DeliveryTask> {
    match turn {
        Turn::Taking => None,
        Turn::Fetching { task, .. } => Some(task),
        Turn::Sending { task } => Some(task),
        Turn::Removing { task } => Some(task),
        Turn::Over => None,
    }
}

/// Decides what a worker does next, from where its turn stands and what it
/// has been told.
///
/// - No task to take: the turn ends with `EmptyQueue`.
/// - A task whose stored address is valid: its issue is looked up and then
///   sent to that address. A task whose address is none is not sent.
/// - Once the sending has been answered, well or badly, or skipped, the
///   task is removed, and the turn ends with `TaskCompleted`.
/// - Where the store fails at taking or removing a task, the turn ends
///   with `TransientError`; where it fails at anything else, or the worker
///   is told something it did not wait for, with `FatalError`. The task
///   that is held is let go of.
pub fn turn_step(turn: Turn, event: TurnEvent) -> (next: (Turn, TurnAction))
    ensures
        match (turn, event) {
            (Turn::Taking, TurnEvent::Took(None)) => next.0 is Over && next.1
                == TurnAction::Finish(ExecutionOutcome::EmptyQueue),
            (Turn::Taking, TurnEvent::Took(Some(task))) => if email_is_valid(
                task.recipient_email@,
            ) {
                &&& next.0 matches Turn::Fetching { task: held, recipient }
                &&& held == task
                &&& recipient@ == task.recipient_email@
                &&& next.1 == (TurnAction::Fetch { issue_id: task.issue_id })
            } else {
                next.0 == (Turn::Removing { task }) && next.1 == (TurnAction::Remove {
                    task,
                    attempt: Attempt::InvalidAddress,
                })
            },
            (Turn::Taking, TurnEvent::Failed) => next.0 is Over && next.1 == (TurnAction::GiveUp {
                task: None,
                error: ExecutionError::TransientError,
            }),
            (Turn::Fetching { task, recipient }, TurnEvent::Fetched(issue)) => next.0 == (
            Turn::Sending { task }) && next.1 == (TurnAction::Send { recipient, issue }),
            (Turn::Sending { task }, TurnEvent::Sent(accepted)) => next.0 == (Turn::Removing {
                task,
            }) && next.1 == (TurnAction::Remove {
                task,
                attempt: if accepted {
                    Attempt::Delivered
                } else {
                    Attempt::NotDelivered
                },
            }),
            (Turn::Removing { task }, TurnEvent::Removed) => next.0 is Over && next.1
                == TurnAction::Finish(ExecutionOutcome::TaskCompleted),
            (Turn::Removing { task }, TurnEvent::Failed) => next.0 is Over && next.1 == (
            TurnAction::GiveUp { task: Some(task), error: ExecutionError::TransientError }),
            _ => next.0 is Over && next.1 == (TurnAction::GiveUp {
                task: held_task(turn),
                error: ExecutionError::FatalError,
            }),
        },
{
    match (turn, event) {
        (Turn::Taking, TurnEvent::Took(None)) => (
            Turn::Over,
            TurnAction::Finish(ExecutionOutcome::EmptyQueue),
        ),
        (Turn::Taking, TurnEvent::Took(Some(task))) => {
            match SubscriberEmail::parse(task.recipient_email.clone()) {
                Ok(recipient) => {
                    let issue_id = task.issue_id;
                    (Turn::Fetching { task, recipient }, TurnAction::Fetch { issue_id })
                },
                Err(_) => (
                    Turn::Removing { task: task.clone() },
                    TurnAction::Remove { task, attempt: Attempt::InvalidAddress },
                ),
            }
        },
        (Turn::Taking, TurnEvent::Failed) => (
            Turn::Over,
            TurnAction::GiveUp { task: None, error: ExecutionError::TransientError },
        ),
        (Turn::Fetching { task, recipient }, TurnEvent::Fetched(issue)) => (
            Turn::Sending { task },
            TurnAction::Send { recipient, issue },
        ),
        (Turn::Sending { task }, TurnEvent::Sent(accepted)) => (
            Turn::Removing { task: task.clone() },
            TurnAction::Remove {
                task,
                attempt: if accepted {
                    Attempt::Delivered
                } else {
                    Attempt::NotDelivered
                },
            },
        ),
        (Turn::Removing { task: _ }, TurnEvent::Removed) => (
            Turn::Over,
            TurnAction::Finish(ExecutionOutcome::TaskCompleted),
        ),
        (Turn::Removing { task }, TurnEvent::Failed) => (
            Turn::Over,
            TurnAction::GiveUp { task: Some(task), error: ExecutionError::TransientError },
        ),
        (Turn::Taking, _) => (
            Turn::Over,
            TurnAction::GiveUp { task: None, error: ExecutionError::FatalError },
        ),
        (Turn::Fetching { task, recipient: _ }, _) => (
            Turn::Over,
            TurnAction::GiveUp { task: Some(task), error: ExecutionError::FatalError },
        ),
        (Turn::Sending { task }, _) => (
            Turn::Over,
            TurnAction::GiveUp { task: Some(task), error: ExecutionError::FatalError },
        ),
        (Turn::Removing { task }, _) => (
            Turn::Over,
            TurnAction::GiveUp { task: Some(task), error: ExecutionError::FatalError },
        ),
        (Turn::Over, _) => (
            Turn::Over,
            TurnAction::GiveUp { task: None, error: ExecutionError::FatalError },
        ),
    }
}

/// The task that a worker is handed from this queue: the first that no
/// worker holds.
pub open spec fn next_in_line(queue: Seq<TaskView>) -> Option<TaskView> {
    if has_pending(queue) {
        Some(queue[first_pending(queue)])
    } else {
        None
    }
}

/// The queue after a worker has been handed its task: that task is held.
pub open spec fn after_handover(queue: Seq<TaskView>) -> Seq<TaskView> {
    if has_pending(queue) {
        locked_at(queue, first_pending(queue))
    } else {
        queue
    }
}

/// The store after one turn of a worker that finishes what it takes: the
/// next task is gone. Where no task is there to take, nothing changes.
pub open spec fn after_turn(store: StoreView) -> StoreView {
    match next_in_line(store.queue) {
        None => store,
        Some(task) => with_queue(
            store,
            without_task(after_handover(store.queue), task.issue_id, task.recipient),
        ),
    }
}

/// One turn of a worker on the store in memory, with `send_email` as the
/// transport: it is asked to send an issue to a recipient and says whether
/// it did.
///
/// The turn takes the first task that no worker holds, sends its issue
/// where its address is valid, and removes it, whether the sending went
/// well or not.
pub fn try_execute_task<F: Fn(&SubscriberEmail, &NewsletterIssue) -> bool>(
    store: &mut Store,
    send_email: F,
) -> (turn: Result<ExecutionOutcome, ExecutionError>)
    requires
        old(store).wf(),
        forall|recipient: &SubscriberEmail, issue: &NewsletterIssue|
            call_requires(send_email, (recipient, issue)),
    ensures
        final(store).wf(),
        final(store)@ == after_turn(old(store)@),
        turn == Ok::<ExecutionOutcome, ExecutionError>(
            if next_in_line(old(store)@.queue) is Some {
                ExecutionOutcome::TaskCompleted
            } else {
                ExecutionOutcome::EmptyQueue
            },
        ),
{
    let ghost before = store@;
    let (turn, _) = begin_turn();
    let taken = store.dequeue_task();
    proof {
        if has_pending(before.queue) {
            lemma_has_first_pending(before.queue);
            assert(has_issue(before.issues, before.queue[first_pending(before.queue)].issue_id));
        } else {
            assert(store@ == before);
        }
    }
    let (turn, action) = turn_step(turn, TurnEvent::Took(taken));
    let (turn, action) = match action {
        TurnAction::Fetch { issue_id } => {
            let issue = store.get_issue(issue_id).unwrap();
            turn_step(turn, TurnEvent::Fetched(issue))
        },
        other => (turn, other),
    };
    let (turn, action) = match action {
        TurnAction::Send { recipient, issue } => {
            let sent = send_email(&recipient, &issue);
            turn_step(turn, TurnEvent::Sent(sent))
        },
        other => (turn, other),
    };
    let (_, action) = match action {
        TurnAction::Remove { task, attempt: _ } => {
            store.delete_task(task.issue_id, task.recipient_email.as_str());
            turn_step(turn, TurnEvent::Removed)
        },
        other => (turn, other),
    };
    match action {
        TurnAction::Finish(outcome) => Ok(outcome),
        TurnAction::GiveUp { task: _, error } => Err(error),
        _ => Err(ExecutionError::FatalError),
    }
}

/// The seconds that a worker waits after a turn: none after a completed
/// task, ten after it found the queue empty, one after the store failed, and
/// none after any other failure, which ends the turn and not the worker.
pub open spec fn pause_seconds(turn: Result<ExecutionOutcome, ExecutionError>) -> u64 {
    match turn {
        Ok(ExecutionOutcome::EmptyQueue) => EMPTY_QUEUE_PAUSE_SECS,
        Err(ExecutionError::TransientError) => TRANSIENT_ERROR_PAUSE_SECS,
        Ok(ExecutionOutcome::TaskCompleted) => 0,
        Err(ExecutionError::FatalError) => 0,
    }
}

/// How long a worker waits before its next turn: see [`pause_seconds`].
pub fn pause_after(turn: &Result<ExecutionOutcome, ExecutionError>) -> (seconds: u64)
    ensures
        seconds == pause_seconds(*turn),
{
    match turn {
        Ok(ExecutionOutcome::EmptyQueue) => EMPTY_QUEUE_PAUSE_SECS,
        Err(ExecutionError::TransientError) => TRANSIENT_ERROR_PAUSE_SECS,
        Ok(ExecutionOutcome::TaskCompleted) => 0,
        Err(ExecutionError::FatalError) => 0,
    }
}

} // verus!
