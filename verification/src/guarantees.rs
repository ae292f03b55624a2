//! What the pipeline guarantees, stated over runs of the store and proved.
//!
//! A run is a sequence of steps, each of which is what one operation of the
//! library does to the store. The steps of different callers and workers
//! may come in any order. A worker that fails and gives its task back is
//! not among the steps: the guarantees on deliveries are for workers that
//! finish what they take.

use crate::idempotency::persistence::{
    has_row, keys_are_unique, lemma_purged, lemma_row_of, purged, row_matches, row_of,
    saved_response, survives, LedgerRowView,
};
use crate::idempotency::response::ResponseView;
use crate::routes::newsletters::{
    lemma_published_keeps_consistent, publish_outcome, published, PublishError,
};
use crate::store::{
    audience, consistent, first_pending, has_email, has_issue, has_pending, has_subscriber,
    has_task, is_confirmed, issue_of, lemma_audience, lemma_confirmation_keeps_consistent,
    lemma_first_pending, lemma_fresh_issue, lemma_has_first_pending, lemma_lock_keeps_consistent,
    lemma_remove_keeps_consistent, lemma_subscriber_keeps_consistent, lemma_without_task,
    locked_at, pending_subscriber, task_matches, tasks_for, with_confirmation, with_queue,
    with_subscriber, without_task, IssueView, StoreView, TaskView,
};
use crate::workers::idempotency_purge_worker::{cutoff, SECS_PER_MINUTE};
use crate::workers::issue_delivery_worker::{after_handover, after_turn, next_in_line};
use vstd::prelude::*;

verus! {

/// One thing that happens to the store.
pub enum Step {
    /// Somebody subscribes: `Store::insert_subscriber_with_id`.
    Subscribe { id: u128, email: Seq<char>, name: Seq<char> },
    /// A subscription is confirmed: `Store::confirm_subscriber`.
    Confirm { id: u128 },
    /// A caller asks for an issue to be published: `publish`.
    Publish { caller_id: u128, key: Seq<char>, issue: IssueView },
    /// A worker takes the next task: `Store::dequeue_task`.
    TakeTask,
    /// A worker removes a task: `Store::delete_task`.
    CompleteTask { issue_id: u128, recipient: Seq<char> },
    /// The ledger is purged: `Store::purge_idempotency`.
    Purge { older_than: u64 },
}

/// A delivery: the issue and the recipient's address.
pub type Delivery = (u128, Seq<char>);

/// The store after the step.
pub open spec fn after(store: StoreView, step: Step) -> StoreView {
    match step {
        Step::Subscribe { id, email, name } => if has_subscriber(store.subscribers, id)
            || has_email(store.subscribers, email) {
            store
        } else {
            with_subscriber(store, pending_subscriber(id, email, name))
        },
        Step::Confirm { id } => with_confirmation(store, id),
        Step::Publish { caller_id, key, issue } => publish_outcome(store, caller_id, key, issue).0,
        Step::TakeTask => with_queue(store, after_handover(store.queue)),
        Step::CompleteTask { issue_id, recipient } => with_queue(
            store,
            without_task(store.queue, issue_id, recipient),
        ),
        Step::Purge { older_than } => StoreView {
            ledger: purged(store.ledger, older_than),
            ..store
        },
    }
}

/// The delivery that the step hands to a worker, if it hands one out.
pub open spec fn handed_out(store: StoreView, step: Step) -> Option<Delivery> {
    match step {
        Step::TakeTask => match next_in_line(store.queue) {
            Some(task) => Some((task.issue_id, task.recipient)),
            None => None,
        },
        _ => None,
    }
}

/// The store after the steps, taken in order.
pub open spec fn after_all(store: StoreView, steps: Seq<Step>) -> StoreView
    decreases steps.len(),
{
    if steps.len() == 0 {
        store
    } else {
        after_all(after(store, steps.first()), steps.drop_first())
    }
}

/// The deliveries that are handed to workers during the steps, in order.
/// Each is attempted by the worker that took it, if its address is valid.
pub open spec fn attempts(store: StoreView, steps: Seq<Step>) -> Seq<Delivery>
    decreases steps.len(),
{
    if steps.len() == 0 {
        Seq::empty()
    } else {
        let rest = attempts(after(store, steps.first()), steps.drop_first());
        match handed_out(store, steps.first()) {
            Some(delivery) => seq![delivery] + rest,
            None => rest,
        }
    }
}

/// Every step leaves the tables consistent.
pub proof fn lemma_step_keeps_consistent(store: StoreView, step: Step)
    requires
        consistent(store),
    ensures
        consistent(after(store, step)),
{
    match step {
        Step::Subscribe { id, email, name } => {
            if !(has_subscriber(store.subscribers, id) || has_email(store.subscribers, email)) {
                lemma_subscriber_keeps_consistent(store, pending_subscriber(id, email, name));
            }
        },
        Step::Confirm { id } => {
            lemma_confirmation_keeps_consistent(store, id);
        },
        Step::Publish { caller_id, key, issue } => {
            if !has_row(store.ledger, caller_id, key) && !has_issue(store.issues, issue.issue_id) {
                lemma_published_keeps_consistent(store, caller_id, key, issue);
            }
        },
        Step::TakeTask => {
            if has_pending(store.queue) {
                lemma_has_first_pending(store.queue);
                lemma_lock_keeps_consistent(store, first_pending(store.queue));
            }
        },
        Step::CompleteTask { issue_id, recipient } => {
            lemma_without_task(store.queue, issue_id, recipient);
            if has_task(store.queue, issue_id, recipient) {
                let at = choose|at: int|
                    0 <= at < store.queue.len() && task_matches(
                        #[trigger] store.queue[at],
                        issue_id,
                        recipient,
                    );
                lemma_remove_keeps_consistent(store, at);
            }
        },
        Step::Purge { older_than } => {
            lemma_purged(store.ledger, older_than);
        },
    }
}

/// Every run leaves the tables consistent.
pub proof fn lemma_run_keeps_consistent(store: StoreView, steps: Seq<Step>)
    requires
        consistent(store),
    ensures
        consistent(after_all(store, steps)),
    decreases steps.len(),
{
    if steps.len() > 0 {
        lemma_step_keeps_consistent(store, steps.first());
        lemma_run_keeps_consistent(after(store, steps.first()), steps.drop_first());
    }
}

/// Whether each of the deliveries is behind the store: its issue is stored,
/// and its task, where the queue still has it, is held by a worker.
pub open spec fn settled(store: StoreView, done: Set<Delivery>) -> bool {
    forall|delivery: Delivery| #[trigger]
        done.contains(delivery) ==> has_issue(store.issues, delivery.0) && forall|i: int|
            0 <= i < store.queue.len() && task_matches(
                #[trigger] store.queue[i],
                delivery.0,
                delivery.1,
            ) ==> store.queue[i].locked
}

/// The deliveries that are behind the store after a step: those that were,
/// and the one that the step hands out.
pub open spec fn settled_after(store: StoreView, step: Step, done: Set<Delivery>) -> Set<Delivery> {
    match handed_out(store, step) {
        Some(delivery) => done.insert(delivery),
        None => done,
    }
}

/// An issue that is stored is still stored after a step.
pub proof fn lemma_issue_stays(store: StoreView, step: Step, issue_id: u128)
    requires
        has_issue(store.issues, issue_id),
    ensures
        has_issue(after(store, step).issues, issue_id),
{
    let k = choose|k: int| 0 <= k < store.issues.len() && (#[trigger] store.issues[k]).issue_id == issue_id;
    assert(after(store, step).issues[k].issue_id == issue_id);
}

/// An issue never changes once it is written: whatever the steps of a run,
/// an issue that is stored before the run is stored after it, and is the
/// same.
pub proof fn lemma_issue_is_immutable(store: StoreView, steps: Seq<Step>, issue_id: u128)
    requires
        consistent(store),
        has_issue(store.issues, issue_id),
    ensures
        has_issue(after_all(store, steps).issues, issue_id),
        issue_of(after_all(store, steps).issues, issue_id) == issue_of(store.issues, issue_id),
    decreases steps.len(),
{
    if steps.len() > 0 {
        let step = steps.first();
        let next = after(store, step);
        let k = choose|k: int|
            0 <= k < store.issues.len() && (#[trigger] store.issues[k]).issue_id == issue_id;
        lemma_step_keeps_consistent(store, step);
        assert(next.issues[k] == store.issues[k]);
        let chosen = choose|j: int|
            0 <= j < next.issues.len() && (#[trigger] next.issues[j]).issue_id == issue_id;
        if chosen != k {
            assert(next.issues[chosen].issue_id != next.issues[k].issue_id);
        }
        lemma_issue_is_immutable(next, steps.drop_first(), issue_id);
    }
}

/// A step hands out a delivery that is not behind the store, and the
/// deliveries that are behind the store stay there.
pub proof fn lemma_step_settles(store: StoreView, step: Step, done: Set<Delivery>)
    requires
        consistent(store),
        settled(store, done),
    ensures
        settled(after(store, step), settled_after(store, step, done)),
        handed_out(store, step) matches Some(delivery) ==> !done.contains(delivery),
{
    let next = after(store, step);
    let then = settled_after(store, step, done);
    assert forall|delivery: Delivery| #[trigger] done.contains(delivery) implies has_issue(
        next.issues,
        delivery.0,
    ) by {
        lemma_issue_stays(store, step, delivery.0);
    }
    match step {
        Step::TakeTask => {
            if has_pending(store.queue) {
                lemma_has_first_pending(store.queue);
                let at = first_pending(store.queue);
                let taken = (store.queue[at].issue_id, store.queue[at].recipient);
                assert(task_matches(store.queue[at], taken.0, taken.1));
                assert(!done.contains(taken));
                assert(has_issue(store.issues, store.queue[at].issue_id));
                assert forall|delivery: Delivery| #[trigger] then.contains(delivery) implies forall|
                    i: int,
                |
                    0 <= i < next.queue.len() && task_matches(
                        #[trigger] next.queue[i],
                        delivery.0,
                        delivery.1,
                    ) ==> next.queue[i].locked by {
                    assert forall|i: int|
                        0 <= i < next.queue.len() && task_matches(
                            #[trigger] next.queue[i],
                            delivery.0,
                            delivery.1,
                        ) implies next.queue[i].locked by {
                        if i != at {
                            assert(task_matches(store.queue[i], delivery.0, delivery.1));
                            if delivery == taken {
                                assert(!task_matches(
                                    store.queue[i],
                                    store.queue[at].issue_id,
                                    store.queue[at].recipient,
                                ));
                            }
                        }
                    }
                }
            }
        },
        Step::CompleteTask { issue_id, recipient } => {
            lemma_without_task(store.queue, issue_id, recipient);
            if has_task(store.queue, issue_id, recipient) {
                let at = choose|at: int|
                    0 <= at < store.queue.len() && task_matches(
                        #[trigger] store.queue[at],
                        issue_id,
                        recipient,
                    );
                assert(next.queue == store.queue.remove(at));
                assert forall|delivery: Delivery| #[trigger] then.contains(delivery) implies forall|
                    i: int,
                |
                    0 <= i < next.queue.len() && task_matches(
                        #[trigger] next.queue[i],
                        delivery.0,
                        delivery.1,
                    ) ==> next.queue[i].locked by {
                    assert forall|i: int|
                        0 <= i < next.queue.len() && task_matches(
                            #[trigger] next.queue[i],
                            delivery.0,
                            delivery.1,
                        ) implies next.queue[i].locked by {
                        let from = if i < at { i } else { i + 1 };
                        assert(next.queue[i] == store.queue[from]);
                    }
                }
            }
        },
        Step::Publish { caller_id, key, issue } => {
            if !has_row(store.ledger, caller_id, key) && !has_issue(store.issues, issue.issue_id) {
                assert forall|delivery: Delivery| #[trigger] then.contains(delivery) implies forall|
                    i: int,
                |
                    0 <= i < next.queue.len() && task_matches(
                        #[trigger] next.queue[i],
                        delivery.0,
                        delivery.1,
                    ) ==> next.queue[i].locked by {
                    assert forall|i: int|
                        0 <= i < next.queue.len() && task_matches(
                            #[trigger] next.queue[i],
                            delivery.0,
                            delivery.1,
                        ) implies next.queue[i].locked by {
                        if i < store.queue.len() {
                            assert(next.queue[i] == store.queue[i]);
                        } else {
                            assert(next.queue[i].issue_id == issue.issue_id);
                            assert(has_issue(store.issues, delivery.0));
                        }
                    }
                }
            }
        },
        _ => {},
    }
}

/// No delivery is handed out twice in a run, and none that was behind the
/// store when the run began.
pub proof fn lemma_attempts_are_new(store: StoreView, steps: Seq<Step>, done: Set<Delivery>)
    requires
        consistent(store),
        settled(store, done),
    ensures
        attempts(store, steps).no_duplicates(),
        forall|j: int|
            0 <= j < attempts(store, steps).len() ==> !done.contains(
                #[trigger] attempts(store, steps)[j],
            ),
    decreases steps.len(),
{
    if steps.len() > 0 {
        let step = steps.first();
        let next = after(store, step);
        let then = settled_after(store, step, done);
        lemma_step_keeps_consistent(store, step);
        lemma_step_settles(store, step, done);
        lemma_attempts_are_new(next, steps.drop_first(), then);
        let rest = attempts(next, steps.drop_first());
        let all = attempts(store, steps);
        match handed_out(store, step) {
            Some(delivery) => {
                assert(all == seq![delivery] + rest);
                assert forall|i: int, j: int| 0 <= i < all.len() && 0 <= j < all.len() && i != j implies all[i]
                    != all[j] by {
                    if i > 0 && j > 0 {
                        assert(rest[i - 1] != rest[j - 1]);
                    } else if i == 0 {
                        assert(then.contains(delivery));
                        assert(!then.contains(rest[j - 1]));
                    } else {
                        assert(then.contains(delivery));
                        assert(!then.contains(rest[i - 1]));
                    }
                }
                assert forall|j: int| 0 <= j < all.len() implies !done.contains(#[trigger] all[j]) by {
                    if j > 0 {
                        assert(!then.contains(rest[j - 1]));
                    }
                }
            },
            None => {},
        }
    }
}

/// At most one attempt: however the steps of callers and workers fall, no
/// delivery is handed to a worker twice. A delivery is one issue for one
/// recipient.
pub proof fn lemma_at_most_one_attempt(store: StoreView, steps: Seq<Step>)
    requires
        consistent(store),
    ensures
        attempts(store, steps).no_duplicates(),
{
    lemma_attempts_are_new(store, steps, Set::empty());
}

/// A task that a worker holds is handed to no other worker, whatever steps
/// follow.
pub proof fn lemma_held_task_is_not_handed_out(store: StoreView, steps: Seq<Step>, at: int)
    requires
        consistent(store),
        0 <= at < store.queue.len(),
        store.queue[at].locked,
    ensures
        !attempts(store, steps).contains((store.queue[at].issue_id, store.queue[at].recipient)),
{
    let held = (store.queue[at].issue_id, store.queue[at].recipient);
    let done = set![held];
    assert forall|delivery: Delivery| #[trigger] done.contains(delivery) implies has_issue(
        store.issues,
        delivery.0,
    ) && forall|i: int|
        0 <= i < store.queue.len() && task_matches(
            #[trigger] store.queue[i],
            delivery.0,
            delivery.1,
        ) ==> store.queue[i].locked by {
        assert(has_issue(store.issues, store.queue[at].issue_id));
        assert forall|i: int|
            0 <= i < store.queue.len() && task_matches(
                #[trigger] store.queue[i],
                delivery.0,
                delivery.1,
            ) implies store.queue[i].locked by {
            if i != at {
                assert(!task_matches(
                    store.queue[i],
                    store.queue[at].issue_id,
                    store.queue[at].recipient,
                ));
            }
        }
    }
    lemma_attempts_are_new(store, steps, done);
    let all = attempts(store, steps);
    if all.contains(held) {
        let j = choose|j: int| 0 <= j < all.len() && all[j] == held;
        assert(!done.contains(all[j]));
    }
}

/// Whether the issue is stored and each of its tasks in the queue is for one
/// of the recipients.
pub open spec fn confined(store: StoreView, issue_id: u128, recipients: Seq<Seq<char>>) -> bool {
    &&& has_issue(store.issues, issue_id)
    &&& forall|i: int|
        0 <= i < store.queue.len() && (#[trigger] store.queue[i]).issue_id == issue_id
            ==> recipients.contains(store.queue[i].recipient)
}

/// No step gives an issue a task for anybody new, and a delivery of the
/// issue that a step hands out is for one of the issue's recipients.
pub proof fn lemma_step_confines(
    store: StoreView,
    step: Step,
    issue_id: u128,
    recipients: Seq<Seq<char>>,
)
    requires
        consistent(store),
        confined(store, issue_id, recipients),
    ensures
        confined(after(store, step), issue_id, recipients),
        handed_out(store, step) matches Some(delivery) ==> delivery.0 == issue_id
            ==> recipients.contains(delivery.1),
{
    let next = after(store, step);
    lemma_issue_stays(store, step, issue_id);
    match step {
        Step::TakeTask => {
            if has_pending(store.queue) {
                lemma_has_first_pending(store.queue);
                let at = first_pending(store.queue);
                assert forall|i: int|
                    0 <= i < next.queue.len() && (#[trigger] next.queue[i]).issue_id
                        == issue_id implies recipients.contains(next.queue[i].recipient) by {
                    assert(store.queue[i].issue_id == issue_id);
                }
            }
        },
        Step::CompleteTask { issue_id: done_issue, recipient } => {
            lemma_without_task(store.queue, done_issue, recipient);
            if has_task(store.queue, done_issue, recipient) {
                let at = choose|at: int|
                    0 <= at < store.queue.len() && task_matches(
                        #[trigger] store.queue[at],
                        done_issue,
                        recipient,
                    );
                assert(next.queue == store.queue.remove(at));
                assert forall|i: int|
                    0 <= i < next.queue.len() && (#[trigger] next.queue[i]).issue_id
                        == issue_id implies recipients.contains(next.queue[i].recipient) by {
                    let from = if i < at { i } else { i + 1 };
                    assert(next.queue[i] == store.queue[from]);
                }
            }
        },
        Step::Publish { caller_id, key, issue } => {
            if !has_row(store.ledger, caller_id, key) && !has_issue(store.issues, issue.issue_id) {
                assert forall|i: int|
                    0 <= i < next.queue.len() && (#[trigger] next.queue[i]).issue_id
                        == issue_id implies recipients.contains(next.queue[i].recipient) by {
                    if i < store.queue.len() {
                        assert(next.queue[i] == store.queue[i]);
                    } else {
                        assert(next.queue[i].issue_id == issue.issue_id);
                    }
                }
            }
        },
        _ => {},
    }
}

/// In a run, every delivery of an issue that is handed out is for one of
/// the recipients to whom the issue's tasks were confined when the run
/// began.
pub proof fn lemma_attempts_are_confined(
    store: StoreView,
    steps: Seq<Step>,
    issue_id: u128,
    recipients: Seq<Seq<char>>,
)
    requires
        consistent(store),
        confined(store, issue_id, recipients),
    ensures
        forall|j: int|
            0 <= j < attempts(store, steps).len() && (#[trigger] attempts(store, steps)[j]).0
                == issue_id ==> recipients.contains(attempts(store, steps)[j].1),
    decreases steps.len(),
{
    if steps.len() > 0 {
        let step = steps.first();
        let next = after(store, step);
        lemma_step_keeps_consistent(store, step);
        lemma_step_confines(store, step, issue_id, recipients);
        lemma_attempts_are_confined(next, steps.drop_first(), issue_id, recipients);
        let rest = attempts(next, steps.drop_first());
        let all = attempts(store, steps);
        assert forall|j: int| 0 <= j < all.len() && (#[trigger] all[j]).0 == issue_id implies recipients.contains(
            all[j].1,
        ) by {
            match handed_out(store, step) {
                Some(delivery) => {
                    if j > 0 {
                        assert(all[j] == rest[j - 1]);
                    }
                },
                None => {},
            }
        }
    }
}

/// The audience of an issue is fixed when the issue is published: whatever
/// happens afterwards, and whoever is confirmed afterwards, a delivery of
/// the issue is handed to a worker only for somebody who was a confirmed
/// subscriber at the moment of publication.
pub proof fn lemma_audience_is_fixed_at_publication(
    store: StoreView,
    caller_id: u128,
    key: Seq<char>,
    issue: IssueView,
    steps: Seq<Step>,
)
    requires
        consistent(store),
        !has_row(store.ledger, caller_id, key),
        !has_issue(store.issues, issue.issue_id),
    ensures
        forall|j: int|
            0 <= j < attempts(published(store, caller_id, key, issue), steps).len() && (
            #[trigger] attempts(published(store, caller_id, key, issue), steps)[j]).0
                == issue.issue_id ==> is_confirmed(
                store.subscribers,
                attempts(published(store, caller_id, key, issue), steps)[j].1,
            ),
{
    let first = published(store, caller_id, key, issue);
    let recipients = audience(store.subscribers);
    lemma_published_keeps_consistent(store, caller_id, key, issue);
    lemma_fresh_issue(store, issue.issue_id);
    assert(confined(first, issue.issue_id, recipients)) by {
        assert(first.issues[first.issues.len() - 1].issue_id == issue.issue_id);
        assert forall|i: int|
            0 <= i < first.queue.len() && (#[trigger] first.queue[i]).issue_id
                == issue.issue_id implies recipients.contains(first.queue[i].recipient) by {
            if i < store.queue.len() {
                assert(first.queue[i] == store.queue[i]);
            } else {
                assert(first.queue[i].recipient == recipients[i - store.queue.len()]);
            }
        }
    }
    lemma_attempts_are_confined(first, steps, issue.issue_id, recipients);
    lemma_audience(store.subscribers);
    let all = attempts(first, steps);
    assert forall|j: int| 0 <= j < all.len() && (#[trigger] all[j]).0 == issue.issue_id implies is_confirmed(
        store.subscribers,
        all[j].1,
    ) by {
        assert(recipients.contains(all[j].1));
        let k = choose|k: int| 0 <= k < recipients.len() && recipients[k] == all[j].1;
        assert(is_confirmed(store.subscribers, recipients[k]));
    }
}

/// The delivery that a task stands for.
pub open spec fn delivery_of(task: TaskView) -> Delivery {
    (task.issue_id, task.recipient)
}

/// The store after this many turns of workers that finish what they take.
pub open spec fn after_turns(store: StoreView, turns: nat) -> StoreView
    decreases turns,
{
    if turns == 0 {
        store
    } else {
        after_turns(after_turn(store), (turns - 1) as nat)
    }
}

/// The deliveries that are handed out in this many turns, in order.
pub open spec fn deliveries_in_turns(store: StoreView, turns: nat) -> Seq<Delivery>
    decreases turns,
{
    if turns == 0 {
        Seq::empty()
    } else {
        let rest = deliveries_in_turns(after_turn(store), (turns - 1) as nat);
        match next_in_line(store.queue) {
            None => rest,
            Some(task) => seq![delivery_of(task)] + rest,
        }
    }
}

/// Whether no task of the queue is held by a worker.
pub open spec fn none_held(queue: Seq<TaskView>) -> bool {
    forall|i: int| 0 <= i < queue.len() ==> !(#[trigger] queue[i]).locked
}

/// Drain completeness: where the queue has K tasks, none of them held, K
/// turns of workers empty it, and as many turns as one likes beyond that
/// find it empty. Exactly the K deliveries of the queue are handed out, each
/// once and in the order of the queue, and no other table changes. A worker
/// sends what it is handed where the address is valid, whatever comes of
/// the sending: with valid addresses that is K sendings.
pub proof fn lemma_workers_drain_the_queue(store: StoreView, turns: nat)
    requires
        consistent(store),
        none_held(store.queue),
        turns >= store.queue.len(),
    ensures
        after_turns(store, turns) == with_queue(store, Seq::empty()),
        deliveries_in_turns(store, turns) == store.queue.map_values(
            |task: TaskView| delivery_of(task),
        ),
    decreases turns,
{
    let queue = store.queue;
    let all = queue.map_values(|task: TaskView| delivery_of(task));
    if queue.len() == 0 {
        assert(!has_pending(queue));
        assert(after_turn(store) == store);
        assert(store == with_queue(store, Seq::empty())) by {
            assert(store.queue =~= Seq::<TaskView>::empty());
        }
        if turns > 0 {
            lemma_workers_drain_the_queue(store, (turns - 1) as nat);
        }
        assert(deliveries_in_turns(store, turns) =~= all);
    } else {
        lemma_first_pending(queue, 0);
        let first = queue[0];
        let held = locked_at(queue, 0);
        let taken = after(store, Step::TakeTask);
        assert(taken.queue == held);
        lemma_step_keeps_consistent(store, Step::TakeTask);
        lemma_without_task(held, first.issue_id, first.recipient);
        assert(task_matches(held[0], first.issue_id, first.recipient));
        let next = after_turn(store);
        assert(next.queue == held.remove(0));
        assert(next.queue =~= queue.drop_first());
        assert(next == with_queue(store, queue.drop_first()));
        lemma_step_keeps_consistent(
            taken,
            Step::CompleteTask { issue_id: first.issue_id, recipient: first.recipient },
        );
        assert(none_held(next.queue)) by {
            assert forall|i: int| 0 <= i < next.queue.len() implies !(#[trigger] next.queue[i]).locked by {
                assert(next.queue[i] == queue[i + 1]);
            }
        }
        lemma_workers_drain_the_queue(next, (turns - 1) as nat);
        let rest = next.queue.map_values(|task: TaskView| delivery_of(task));
        assert(seq![delivery_of(first)] + rest =~= all);
    }
}

/// Idempotence: a request that is made a second time, with the same caller
/// and key, gets the response of the first time back and changes nothing,
/// whatever issue it carries and whatever identifier and time it is given.
/// So there is one issue and one set of tasks, however often the request is
/// made.
pub proof fn lemma_publish_is_idempotent(
    store: StoreView,
    caller_id: u128,
    key: Seq<char>,
    issue: IssueView,
    again: IssueView,
)
    requires
        consistent(store),
        publish_outcome(store, caller_id, key, issue).1 is Ok,
    ensures
        publish_outcome(publish_outcome(store, caller_id, key, issue).0, caller_id, key, again)
            == publish_outcome(store, caller_id, key, issue),
        !has_row(store.ledger, caller_id, key) ==> publish_outcome(
            store,
            caller_id,
            key,
            issue,
        ).0.issues == store.issues.push(issue) && publish_outcome(
            store,
            caller_id,
            key,
            issue,
        ).0.queue == store.queue + tasks_for(issue.issue_id, audience(store.subscribers)),
{
    if !has_row(store.ledger, caller_id, key) {
        let first = published(store, caller_id, key, issue);
        lemma_published_keeps_consistent(store, caller_id, key, issue);
        let at = store.ledger.len() as int;
        assert(row_matches(first.ledger[at], caller_id, key));
        lemma_row_of(first.ledger, at, caller_id, key);
    }
}

/// Whether the step leaves the ledger row of this caller and key in place:
/// every step does but a purge whose cutoff lies after the row's creation.
pub open spec fn spares(store: StoreView, step: Step, caller_id: u128, key: Seq<char>) -> bool {
    step matches Step::Purge { older_than } ==> survives(
        row_of(store.ledger, caller_id, key),
        older_than,
    )
}

/// A row of the ledger stays what it is through every step that spares it.
pub proof fn lemma_row_is_kept(store: StoreView, step: Step, caller_id: u128, key: Seq<char>)
    requires
        consistent(store),
        has_row(store.ledger, caller_id, key),
        spares(store, step, caller_id, key),
    ensures
        has_row(after(store, step).ledger, caller_id, key),
        row_of(after(store, step).ledger, caller_id, key) == row_of(store.ledger, caller_id, key),
{
    let next = after(store, step);
    let at = choose|i: int|
        0 <= i < store.ledger.len() && row_matches(#[trigger] store.ledger[i], caller_id, key);
    lemma_row_of(store.ledger, at, caller_id, key);
    lemma_step_keeps_consistent(store, step);
    match step {
        Step::Publish { caller_id: other_caller, key: other_key, issue } => {
            if !has_row(store.ledger, other_caller, other_key) && !has_issue(
                store.issues,
                issue.issue_id,
            ) {
                assert(next.ledger[at] == store.ledger[at]);
                lemma_row_of(next.ledger, at, caller_id, key);
            }
        },
        Step::Purge { older_than } => {
            lemma_purged(store.ledger, older_than);
            assert(next.ledger.contains(store.ledger[at]));
            let j = choose|j: int| 0 <= j < next.ledger.len() && next.ledger[j] == store.ledger[at];
            lemma_row_of(next.ledger, j, caller_id, key);
        },
        _ => {},
    }
}

/// Whether every step of the run leaves the ledger row of this caller and
/// key in place.
pub open spec fn all_spare(store: StoreView, steps: Seq<Step>, caller_id: u128, key: Seq<char>) -> bool
    decreases steps.len(),
{
    steps.len() > 0 ==> spares(store, steps.first(), caller_id, key) && all_spare(
        after(store, steps.first()),
        steps.drop_first(),
        caller_id,
        key,
    )
}

/// Idempotence over time: once a request has its response saved, the same
/// request gets that response back and changes nothing, whatever has
/// happened in between, as long as no purge has removed the request's row
/// from the ledger.
pub proof fn lemma_replay_after_any_run(
    store: StoreView,
    steps: Seq<Step>,
    caller_id: u128,
    key: Seq<char>,
    again: IssueView,
)
    requires
        consistent(store),
        saved_response(store.ledger, caller_id, key) is Some,
        all_spare(store, steps, caller_id, key),
    ensures
        publish_outcome(after_all(store, steps), caller_id, key, again) == (
            after_all(store, steps),
            Ok::<ResponseView, PublishError>(saved_response(store.ledger, caller_id, key)->0),
        ),
    decreases steps.len(),
{
    if steps.len() > 0 {
        let step = steps.first();
        lemma_row_is_kept(store, step, caller_id, key);
        lemma_step_keeps_consistent(store, step);
        lemma_replay_after_any_run(after(store, step), steps.drop_first(), caller_id, key, again);
    }
}

/// Retention: a purge at a time before a row's creation plus the retention
/// window leaves the row as it is, and a purge at a time after that removes
/// it. Times are in seconds and the window is in minutes.
pub proof fn lemma_retention(
    ledger: Seq<LedgerRowView>,
    caller_id: u128,
    key: Seq<char>,
    now: u64,
    expired_minutes: u64,
)
    requires
        keys_are_unique(ledger),
        has_row(ledger, caller_id, key),
    ensures
        ({
            let row = row_of(ledger, caller_id, key);
            let left = purged(ledger, cutoff(now, expired_minutes));
            &&& now < row.created_at + expired_minutes * SECS_PER_MINUTE ==> has_row(
                left,
                caller_id,
                key,
            ) && row_of(left, caller_id, key) == row
            &&& now > row.created_at + expired_minutes * SECS_PER_MINUTE ==> !has_row(
                left,
                caller_id,
                key,
            )
        }),
{
    let older_than = cutoff(now, expired_minutes);
    let row = row_of(ledger, caller_id, key);
    let left = purged(ledger, older_than);
    let at = choose|i: int| 0 <= i < ledger.len() && row_matches(#[trigger] ledger[i], caller_id, key);
    lemma_row_of(ledger, at, caller_id, key);
    lemma_purged(ledger, older_than);
    if now < row.created_at + expired_minutes * SECS_PER_MINUTE {
        assert(survives(ledger[at], older_than));
        assert(left.contains(ledger[at]));
        let j = choose|j: int| 0 <= j < left.len() && left[j] == ledger[at];
        lemma_row_of(left, j, caller_id, key);
    }
    if now > row.created_at + expired_minutes * SECS_PER_MINUTE {
        if has_row(left, caller_id, key) {
            let j = choose|j: int| 0 <= j < left.len() && row_matches(#[trigger] left[j], caller_id, key);
            assert(ledger.contains(left[j]) && survives(left[j], older_than));
            let i = choose|i: int| 0 <= i < ledger.len() && ledger[i] == left[j];
            lemma_row_of(ledger, i, caller_id, key);
        }
    }
}

/// The ledger after purge cycles at these times, in order.
pub open spec fn after_cycles(ledger: Seq<LedgerRowView>, times: Seq<u64>, expired_minutes: u64) -> Seq<
    LedgerRowView,
>
    decreases times.len(),
{
    if times.len() == 0 {
        ledger
    } else {
        after_cycles(
            purged(ledger, cutoff(times.first(), expired_minutes)),
            times.drop_first(),
            expired_minutes,
        )
    }
}

/// Retention over many cycles: a row is there after every purge cycle that
/// runs before the row's creation plus the retention window, and it is gone
/// after the first cycle that runs later than that.
pub proof fn lemma_retention_over_cycles(
    ledger: Seq<LedgerRowView>,
    caller_id: u128,
    key: Seq<char>,
    times: Seq<u64>,
    late: u64,
    expired_minutes: u64,
)
    requires
        keys_are_unique(ledger),
        has_row(ledger, caller_id, key),
        forall|i: int|
            0 <= i < times.len() ==> (#[trigger] times[i]) < row_of(
                ledger,
                caller_id,
                key,
            ).created_at + expired_minutes * SECS_PER_MINUTE,
        late > row_of(ledger, caller_id, key).created_at + expired_minutes * SECS_PER_MINUTE,
    ensures
        keys_are_unique(after_cycles(ledger, times, expired_minutes)),
        has_row(after_cycles(ledger, times, expired_minutes), caller_id, key),
        row_of(after_cycles(ledger, times, expired_minutes), caller_id, key) == row_of(
            ledger,
            caller_id,
            key,
        ),
        !has_row(
            purged(
                after_cycles(ledger, times, expired_minutes),
                cutoff(late, expired_minutes),
            ),
            caller_id,
            key,
        ),
    decreases times.len(),
{
    if times.len() == 0 {
        lemma_retention(ledger, caller_id, key, late, expired_minutes);
    } else {
        let next = purged(ledger, cutoff(times.first(), expired_minutes));
        lemma_retention(ledger, caller_id, key, times.first(), expired_minutes);
        lemma_purged(ledger, cutoff(times.first(), expired_minutes));
        assert forall|i: int| 0 <= i < times.drop_first().len() implies (
        #[trigger] times.drop_first()[i]) < row_of(next, caller_id, key).created_at
            + expired_minutes * SECS_PER_MINUTE by {
            assert(times.drop_first()[i] == times[i + 1]);
        }
        lemma_retention_over_cycles(
            next,
            caller_id,
            key,
            times.drop_first(),
            late,
            expired_minutes,
        );
    }
}

} // verus!
