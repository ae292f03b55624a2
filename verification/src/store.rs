//! The tables behind the service, held in memory: the idempotency ledger,
//! the issues, the delivery queue, the subscriptions and their tokens.
//!
//! Every table is a list of rows in the order in which they were written.
//! The operations change it as the matching statement changes a table of a
//! relational store, the uniqueness of keys included.

use crate::domain::{email_is_valid, NewSubscriber, SubscriberEmail, UserId};
use crate::idempotency::persistence::{
    claimed_row, completed, has_row, keys_are_unique, purged, saved_response, unclaimed, Ledger,
    LedgerError, LedgerRowView, NextAction,
};
use crate::idempotency::{IdempotencyKey, SavedResponse};
use crate::sequences::{lemma_filter_all, lemma_filter_one_out};
use vstd::prelude::*;

verus! {

/// The mathematical form of an issue.
pub struct IssueView {
    pub issue_id: u128,
    pub title: Seq<char>,
    pub text_content: Seq<char>,
    pub html_content: Seq<char>,
    pub published_at: u64,
}

/// The mathematical form of a row of the delivery queue. A row is locked
/// while a worker holds it.
pub struct TaskView {
    pub issue_id: u128,
    pub recipient: Seq<char>,
    pub locked: bool,
}

/// The mathematical form of a subscription.
pub struct SubscriberView {
    pub id: u128,
    pub email: Seq<char>,
    pub name: Seq<char>,
    pub confirmed: bool,
}

/// The mathematical form of a confirmation token.
pub struct TokenView {
    pub token: Seq<char>,
    pub subscriber_id: u128,
}

/// The mathematical form of the store: its five tables.
pub struct StoreView {
    pub ledger: Seq<LedgerRowView>,
    pub issues: Seq<IssueView>,
    pub queue: Seq<TaskView>,
    pub subscribers: Seq<SubscriberView>,
    pub tokens: Seq<TokenView>,
}

/// Whether an issue with this identifier has been stored.
pub open spec fn has_issue(issues: Seq<IssueView>, issue_id: u128) -> bool {
    exists|i: int| 0 <= i < issues.len() && (#[trigger] issues[i]).issue_id == issue_id
}

/// The issue with this identifier, where one has been stored.
pub open spec fn issue_of(issues: Seq<IssueView>, issue_id: u128) -> IssueView {
    issues[choose|i: int| 0 <= i < issues.len() && (#[trigger] issues[i]).issue_id == issue_id]
}

/// Whether the row is the task of this issue and recipient.
pub open spec fn task_matches(task: TaskView, issue_id: u128, recipient: Seq<char>) -> bool {
    task.issue_id == issue_id && task.recipient == recipient
}

/// Whether the queue holds the task of this issue and recipient.
pub open spec fn has_task(queue: Seq<TaskView>, issue_id: u128, recipient: Seq<char>) -> bool {
    exists|i: int| 0 <= i < queue.len() && task_matches(#[trigger] queue[i], issue_id, recipient)
}

/// Whether somebody has subscribed with this address.
pub open spec fn has_email(subscribers: Seq<SubscriberView>, email: Seq<char>) -> bool {
    exists|i: int| 0 <= i < subscribers.len() && (#[trigger] subscribers[i]).email == email
}

/// Whether a subscription has this identifier.
pub open spec fn has_subscriber(subscribers: Seq<SubscriberView>, id: u128) -> bool {
    exists|i: int| 0 <= i < subscribers.len() && (#[trigger] subscribers[i]).id == id
}

/// Whether this token has been stored.
pub open spec fn has_token(tokens: Seq<TokenView>, token: Seq<char>) -> bool {
    exists|i: int| 0 <= i < tokens.len() && (#[trigger] tokens[i]).token == token
}

/// The subscriber that the token was stored for, where it has been stored.
pub open spec fn token_owner(tokens: Seq<TokenView>, token: Seq<char>) -> u128 {
    tokens[choose|i: int| 0 <= i < tokens.len() && (#[trigger] tokens[i]).token == token].subscriber_id
}

/// Whether a confirmed subscriber has this address.
pub open spec fn is_confirmed(subscribers: Seq<SubscriberView>, email: Seq<char>) -> bool {
    exists|i: int|
        0 <= i < subscribers.len() && (#[trigger] subscribers[i]).confirmed && subscribers[i].email
            == email
}

/// The addresses of the confirmed subscribers, in the order of their
/// subscriptions.
pub open spec fn audience(subscribers: Seq<SubscriberView>) -> Seq<Seq<char>>
    decreases subscribers.len(),
{
    if subscribers.len() == 0 {
        Seq::empty()
    } else {
        let front = audience(subscribers.drop_last());
        if subscribers.last().confirmed {
            front.push(subscribers.last().email)
        } else {
            front
        }
    }
}

/// One task for each recipient, none of them held by a worker.
pub open spec fn tasks_for(issue_id: u128, recipients: Seq<Seq<char>>) -> Seq<TaskView> {
    recipients.map_values(|recipient: Seq<char>| TaskView { issue_id, recipient, locked: false })
}

/// Whether the queue already holds a task of this issue for one of the
/// recipients.
pub open spec fn enqueue_conflict(
    queue: Seq<TaskView>,
    issue_id: u128,
    recipients: Seq<Seq<char>>,
) -> bool {
    exists|i: int|
        0 <= i < recipients.len() && has_task(queue, issue_id, #[trigger] recipients[i])
}

/// No two issues have the same identifier.
pub open spec fn issue_ids_are_unique(issues: Seq<IssueView>) -> bool {
    forall|i: int, j: int|
        #![trigger issues[i], issues[j]]
        0 <= i < issues.len() && 0 <= j < issues.len() && i != j ==> issues[i].issue_id
            != issues[j].issue_id
}

/// No two rows of the queue are of the same issue and recipient.
pub open spec fn tasks_are_unique(queue: Seq<TaskView>) -> bool {
    forall|i: int, j: int|
        #![trigger queue[i], queue[j]]
        0 <= i < queue.len() && 0 <= j < queue.len() && i != j ==> !task_matches(
            queue[j],
            queue[i].issue_id,
            queue[i].recipient,
        )
}

/// Every task is of an issue that has been stored.
pub open spec fn tasks_have_issues(queue: Seq<TaskView>, issues: Seq<IssueView>) -> bool {
    forall|i: int| 0 <= i < queue.len() ==> has_issue(issues, (#[trigger] queue[i]).issue_id)
}

/// No two subscriptions have the same identifier or the same address.
pub open spec fn subscribers_are_unique(subscribers: Seq<SubscriberView>) -> bool {
    forall|i: int, j: int|
        #![trigger subscribers[i], subscribers[j]]
        0 <= i < subscribers.len() && 0 <= j < subscribers.len() && i != j ==> subscribers[i].id
            != subscribers[j].id && subscribers[i].email != subscribers[j].email
}

/// No token has been stored twice, and each belongs to a subscription.
pub open spec fn tokens_are_sound(tokens: Seq<TokenView>, subscribers: Seq<SubscriberView>) -> bool {
    &&& forall|i: int, j: int|
        #![trigger tokens[i], tokens[j]]
        0 <= i < tokens.len() && 0 <= j < tokens.len() && i != j ==> tokens[i].token
            != tokens[j].token
    &&& forall|i: int|
        0 <= i < tokens.len() ==> has_subscriber(subscribers, (#[trigger] tokens[i]).subscriber_id)
}

/// The store once the caller has tried to claim the key: a ledger without a
/// row for the two gains one, and nothing else changes.
pub open spec fn claimed(store: StoreView, caller_id: u128, key: Seq<char>, now: u64) -> StoreView {
    if has_row(store.ledger, caller_id, key) {
        store
    } else {
        StoreView { ledger: store.ledger.push(claimed_row(caller_id, key, now)), ..store }
    }
}

/// The store with one more issue.
pub open spec fn with_issue(store: StoreView, issue: IssueView) -> StoreView {
    StoreView { issues: store.issues.push(issue), ..store }
}

/// The store with one more subscription.
pub open spec fn with_subscriber(store: StoreView, subscriber: SubscriberView) -> StoreView {
    StoreView { subscribers: store.subscribers.push(subscriber), ..store }
}

/// A subscription as it is first stored: not yet confirmed.
pub open spec fn pending_subscriber(id: u128, email: Seq<char>, name: Seq<char>) -> SubscriberView {
    SubscriberView { id, email, name, confirmed: false }
}

/// The store once the subscription with this identifier has been confirmed.
/// No other table changes, the delivery queue least of all.
pub open spec fn with_confirmation(store: StoreView, id: u128) -> StoreView {
    StoreView {
        subscribers: store.subscribers.map_values(
            |row: SubscriberView|
                if row.id == id {
                    SubscriberView { confirmed: true, ..row }
                } else {
                    row
                },
        ),
        ..store
    }
}

/// The store with one more token.
pub open spec fn with_token(store: StoreView, token: TokenView) -> StoreView {
    StoreView { tokens: store.tokens.push(token), ..store }
}

/// The store with another delivery queue.
pub open spec fn with_queue(store: StoreView, queue: Seq<TaskView>) -> StoreView {
    StoreView { queue, ..store }
}

/// The store once the tasks of an issue have been written: one for each
/// subscriber who is confirmed in this store, behind the tasks that the
/// queue held before.
pub open spec fn with_tasks(store: StoreView, issue_id: u128) -> StoreView {
    with_queue(store, store.queue + tasks_for(issue_id, audience(store.subscribers)))
}

/// Whether some task is held by no worker.
pub open spec fn has_pending(queue: Seq<TaskView>) -> bool {
    exists|i: int| 0 <= i < queue.len() && !(#[trigger] queue[i]).locked
}

/// Whether the task at this place is the first that no worker holds.
pub open spec fn is_first_pending(queue: Seq<TaskView>, at: int) -> bool {
    &&& 0 <= at < queue.len()
    &&& !queue[at].locked
    &&& forall|j: int| 0 <= j < at ==> (#[trigger] queue[j]).locked
}

/// The place of the first task that no worker holds, where there is one.
pub open spec fn first_pending(queue: Seq<TaskView>) -> int {
    choose|at: int| is_first_pending(queue, at)
}

/// The queue with the task at this place marked as held.
pub open spec fn locked_at(queue: Seq<TaskView>, at: int) -> Seq<TaskView> {
    queue.update(at, TaskView { locked: true, ..queue[at] })
}

/// The queue without the task of this issue and recipient.
pub open spec fn without_task(queue: Seq<TaskView>, issue_id: u128, recipient: Seq<char>) -> Seq<
    TaskView,
> {
    queue.filter(|task: TaskView| !task_matches(task, issue_id, recipient))
}

/// The queue with the task of this issue and recipient no longer held.
pub open spec fn released(queue: Seq<TaskView>, issue_id: u128, recipient: Seq<char>) -> Seq<
    TaskView,
> {
    queue.map_values(
        |task: TaskView|
            if task_matches(task, issue_id, recipient) {
                TaskView { locked: false, ..task }
            } else {
                task
            },
    )
}

/// What holds of the tables at all times: the keys of each are unique, and
/// the rows that point into another table point at a row that is there.
pub open spec fn consistent(store: StoreView) -> bool {
    &&& keys_are_unique(store.ledger)
    &&& issue_ids_are_unique(store.issues)
    &&& tasks_are_unique(store.queue)
    &&& tasks_have_issues(store.queue, store.issues)
    &&& subscribers_are_unique(store.subscribers)
    &&& tokens_are_sound(store.tokens, store.subscribers)
}

/// A confirmation leaves the tables consistent.
pub proof fn lemma_confirmation_keeps_consistent(store: StoreView, id: u128)
    requires
        consistent(store),
    ensures
        consistent(with_confirmation(store, id)),
{
    let before = store.subscribers;
    let after = with_confirmation(store, id).subscribers;
    assert forall|i: int, j: int|
        #![trigger after[i], after[j]]
        0 <= i < after.len() && 0 <= j < after.len() && i != j implies after[i].id != after[j].id
        && after[i].email != after[j].email by {
        assert(before[i].id != before[j].id && before[i].email != before[j].email);
    }
    assert forall|i: int| 0 <= i < store.tokens.len() implies has_subscriber(
        after,
        (#[trigger] store.tokens[i]).subscriber_id,
    ) by {
        let owner = store.tokens[i].subscriber_id;
        assert(has_subscriber(before, owner));
        let k = choose|k: int| 0 <= k < before.len() && (#[trigger] before[k]).id == owner;
        assert(after[k].id == owner);
    }
}

/// Where a task is held by no worker and all before it are held, that task
/// is the first pending one.
pub proof fn lemma_first_pending(queue: Seq<TaskView>, at: int)
    requires
        is_first_pending(queue, at),
    ensures
        has_pending(queue),
        first_pending(queue) == at,
{
    let chosen = first_pending(queue);
    assert(is_first_pending(queue, chosen));
    if chosen < at {
        assert(queue[chosen].locked);
    } else if at < chosen {
        assert(queue[at].locked);
    }
}

/// Where some task is held by no worker, there is a first such task.
pub proof fn lemma_has_first_pending(queue: Seq<TaskView>)
    requires
        has_pending(queue),
    ensures
        is_first_pending(queue, first_pending(queue)),
    decreases queue.len(),
{
    let some = choose|i: int| 0 <= i < queue.len() && !(#[trigger] queue[i]).locked;
    let front = queue.take(some);
    if has_pending(front) {
        lemma_has_first_pending(front);
        let at = first_pending(front);
        assert(queue[at] == front[at]);
        assert forall|j: int| 0 <= j < at implies (#[trigger] queue[j]).locked by {
            assert(front[j].locked);
        }
        assert(is_first_pending(queue, at));
    } else {
        assert forall|j: int| 0 <= j < some implies (#[trigger] queue[j]).locked by {
            assert(front[j] == queue[j]);
        }
        assert(is_first_pending(queue, some));
    }
}

/// Every address of the audience is the address of a confirmed subscriber,
/// every confirmed subscriber's address is in the audience, and where no
/// two subscribers share an address, no address is in the audience twice.
pub proof fn lemma_audience(subscribers: Seq<SubscriberView>)
    ensures
        forall|k: int|
            0 <= k < audience(subscribers).len() ==> is_confirmed(
                subscribers,
                #[trigger] audience(subscribers)[k],
            ),
        forall|i: int|
            0 <= i < subscribers.len() && (#[trigger] subscribers[i]).confirmed ==> audience(
                subscribers,
            ).contains(subscribers[i].email),
        subscribers_are_unique(subscribers) ==> audience(subscribers).no_duplicates(),
    decreases subscribers.len(),
{
    let all = audience(subscribers);
    if subscribers.len() > 0 {
        let front = subscribers.drop_last();
        let last = subscribers.last();
        let sub = audience(front);
        lemma_audience(front);
        assert forall|k: int| 0 <= k < all.len() implies is_confirmed(
            subscribers,
            #[trigger] all[k],
        ) by {
            if k < sub.len() {
                assert(is_confirmed(front, sub[k]));
                let i = choose|i: int|
                    0 <= i < front.len() && (#[trigger] front[i]).confirmed && front[i].email
                        == sub[k];
                assert(subscribers[i].confirmed && subscribers[i].email == all[k]);
            } else {
                assert(subscribers[subscribers.len() - 1].confirmed);
            }
        }
        assert forall|i: int|
            0 <= i < subscribers.len() && (#[trigger] subscribers[i]).confirmed implies all.contains(
            subscribers[i].email,
        ) by {
            if i < front.len() {
                assert(front[i].confirmed);
                assert(sub.contains(front[i].email));
                let k = choose|k: int| 0 <= k < sub.len() && sub[k] == front[i].email;
                assert(all[k] == subscribers[i].email);
            } else {
                assert(all[all.len() - 1] == subscribers[i].email);
            }
        }
        if subscribers_are_unique(subscribers) {
            assert(subscribers_are_unique(front)) by {
                assert forall|i: int, j: int|
                    #![trigger front[i], front[j]]
                    0 <= i < front.len() && 0 <= j < front.len() && i != j implies front[i].id
                    != front[j].id && front[i].email != front[j].email by {
                    assert(subscribers[i].id != subscribers[j].id);
                }
            }
            assert forall|k: int, l: int| 0 <= k < all.len() && 0 <= l < all.len() && k != l implies all[k]
                != all[l] by {
                if k < sub.len() && l < sub.len() {
                } else {
                    let inner = if k < sub.len() { k } else { l };
                    assert(is_confirmed(front, sub[inner]));
                    let i = choose|i: int|
                        0 <= i < front.len() && (#[trigger] front[i]).confirmed && front[i].email
                            == sub[inner];
                    assert(subscribers[i].email != subscribers[subscribers.len() - 1].email);
                }
            }
        }
    }
}

/// Writing the tasks of a stored issue, none of which the queue holds yet,
/// leaves the tables consistent.
pub proof fn lemma_tasks_keep_consistent(store: StoreView, issue_id: u128)
    requires
        consistent(store),
        has_issue(store.issues, issue_id),
        !enqueue_conflict(store.queue, issue_id, audience(store.subscribers)),
    ensures
        consistent(with_tasks(store, issue_id)),
{
    let recipients = audience(store.subscribers);
    let added = tasks_for(issue_id, recipients);
    let after = store.queue + added;
    lemma_audience(store.subscribers);
    assert forall|i: int, j: int|
        #![trigger after[i], after[j]]
        0 <= i < after.len() && 0 <= j < after.len() && i != j implies !task_matches(
        after[j],
        after[i].issue_id,
        after[i].recipient,
    ) by {
        let n = store.queue.len() as int;
        if i < n && j < n {
            assert(!task_matches(store.queue[j], store.queue[i].issue_id, store.queue[i].recipient));
        } else if i >= n && j >= n {
            assert(added[i - n].recipient == recipients[i - n]);
            assert(added[j - n].recipient == recipients[j - n]);
            assert(recipients[i - n] != recipients[j - n]);
        } else {
            let old_one = if i < n { i } else { j };
            let new_one = if i < n { j } else { i };
            assert(added[new_one - n].recipient == recipients[new_one - n]);
            assert(!has_task(store.queue, issue_id, recipients[new_one - n]));
            assert(!task_matches(store.queue[old_one], issue_id, recipients[new_one - n]));
        }
    }
    assert forall|i: int| 0 <= i < after.len() implies has_issue(
        store.issues,
        (#[trigger] after[i]).issue_id,
    ) by {
        if i < store.queue.len() {
            assert(after[i] == store.queue[i]);
        } else {
            assert(after[i].issue_id == issue_id);
        }
    }
}

/// Marking a task as held leaves the tables consistent.
pub proof fn lemma_lock_keeps_consistent(store: StoreView, at: int)
    requires
        consistent(store),
        0 <= at < store.queue.len(),
    ensures
        consistent(with_queue(store, locked_at(store.queue, at))),
{
    let before = store.queue;
    let after = locked_at(before, at);
    assert forall|i: int, j: int|
        #![trigger after[i], after[j]]
        0 <= i < after.len() && 0 <= j < after.len() && i != j implies !task_matches(
        after[j],
        after[i].issue_id,
        after[i].recipient,
    ) by {
        assert(!task_matches(before[j], before[i].issue_id, before[i].recipient));
    }
    assert forall|i: int| 0 <= i < after.len() implies has_issue(
        store.issues,
        (#[trigger] after[i]).issue_id,
    ) by {
        assert(after[i].issue_id == before[i].issue_id);
    }
}

/// Giving a task up leaves the tables consistent.
pub proof fn lemma_release_keeps_consistent(store: StoreView, issue_id: u128, recipient: Seq<char>)
    requires
        consistent(store),
    ensures
        consistent(with_queue(store, released(store.queue, issue_id, recipient))),
{
    let before = store.queue;
    let after = released(before, issue_id, recipient);
    assert forall|i: int, j: int|
        #![trigger after[i], after[j]]
        0 <= i < after.len() && 0 <= j < after.len() && i != j implies !task_matches(
        after[j],
        after[i].issue_id,
        after[i].recipient,
    ) by {
        assert(!task_matches(before[j], before[i].issue_id, before[i].recipient));
    }
    assert forall|i: int| 0 <= i < after.len() implies has_issue(
        store.issues,
        (#[trigger] after[i]).issue_id,
    ) by {
        assert(after[i].issue_id == before[i].issue_id);
    }
}

/// Taking a task out of the queue leaves the tables consistent.
pub proof fn lemma_remove_keeps_consistent(store: StoreView, at: int)
    requires
        consistent(store),
        0 <= at < store.queue.len(),
    ensures
        consistent(with_queue(store, store.queue.remove(at))),
{
    let before = store.queue;
    let after = before.remove(at);
    assert forall|i: int, j: int|
        #![trigger after[i], after[j]]
        0 <= i < after.len() && 0 <= j < after.len() && i != j implies !task_matches(
        after[j],
        after[i].issue_id,
        after[i].recipient,
    ) by {
        let from_i = if i < at { i } else { i + 1 };
        let from_j = if j < at { j } else { j + 1 };
        assert(!task_matches(before[from_j], before[from_i].issue_id, before[from_i].recipient));
    }
    assert forall|i: int| 0 <= i < after.len() implies has_issue(
        store.issues,
        (#[trigger] after[i]).issue_id,
    ) by {
        let from_i = if i < at { i } else { i + 1 };
        assert(after[i] == before[from_i]);
    }
}

/// The queue without a task is the queue as it was, where it has no such
/// task, and else the queue with the one row of the task taken out.
pub proof fn lemma_without_task(queue: Seq<TaskView>, issue_id: u128, recipient: Seq<char>)
    requires
        tasks_are_unique(queue),
    ensures
        !has_task(queue, issue_id, recipient) ==> without_task(queue, issue_id, recipient) == queue,
        forall|at: int|
            0 <= at < queue.len() && task_matches(#[trigger] queue[at], issue_id, recipient)
                ==> without_task(queue, issue_id, recipient) == queue.remove(at),
{
    let keep = |task: TaskView| !task_matches(task, issue_id, recipient);
    if !has_task(queue, issue_id, recipient) {
        lemma_filter_all(queue, keep);
    }
    assert forall|at: int|
        0 <= at < queue.len() && task_matches(
            #[trigger] queue[at],
            issue_id,
            recipient,
        ) implies without_task(queue, issue_id, recipient) == queue.remove(at) by {
        assert forall|i: int| 0 <= i < queue.len() && i != at implies keep(#[trigger] queue[i]) by {
            assert(!task_matches(queue[i], queue[at].issue_id, queue[at].recipient));
        }
        lemma_filter_one_out(queue, keep, at);
    }
}

/// A subscription that clashes with none leaves the tables consistent.
pub proof fn lemma_subscriber_keeps_consistent(store: StoreView, subscriber: SubscriberView)
    requires
        consistent(store),
        !has_subscriber(store.subscribers, subscriber.id),
        !has_email(store.subscribers, subscriber.email),
    ensures
        consistent(with_subscriber(store, subscriber)),
{
    let before = store.subscribers;
    let after = before.push(subscriber);
    assert forall|i: int, j: int|
        #![trigger after[i], after[j]]
        0 <= i < after.len() && 0 <= j < after.len() && i != j implies after[i].id != after[j].id
        && after[i].email != after[j].email by {
        if i < before.len() && j < before.len() {
            assert(before[i].id != before[j].id);
        } else if i < before.len() {
            assert(before[i].id != subscriber.id && before[i].email != subscriber.email);
        } else {
            assert(before[j].id != subscriber.id && before[j].email != subscriber.email);
        }
    }
    assert forall|i: int| 0 <= i < store.tokens.len() implies has_subscriber(
        after,
        (#[trigger] store.tokens[i]).subscriber_id,
    ) by {
        let owner = store.tokens[i].subscriber_id;
        assert(has_subscriber(before, owner));
        let k = choose|k: int| 0 <= k < before.len() && (#[trigger] before[k]).id == owner;
        assert(after[k].id == owner);
    }
}

/// An issue whose identifier is free leaves the tables consistent.
pub proof fn lemma_issue_keeps_consistent(store: StoreView, issue: IssueView)
    requires
        consistent(store),
        !has_issue(store.issues, issue.issue_id),
    ensures
        consistent(with_issue(store, issue)),
        has_issue(with_issue(store, issue).issues, issue.issue_id),
{
    let issues = with_issue(store, issue).issues;
    assert forall|i: int, j: int|
        #![trigger issues[i], issues[j]]
        0 <= i < issues.len() && 0 <= j < issues.len() && i != j implies issues[i].issue_id
        != issues[j].issue_id by {
        let n = store.issues.len() as int;
        if i < n && j < n {
            assert(store.issues[i].issue_id != store.issues[j].issue_id);
        } else if i < n {
            assert(store.issues[i].issue_id != issue.issue_id);
        } else {
            assert(store.issues[j].issue_id != issue.issue_id);
        }
    }
    assert forall|i: int| 0 <= i < store.queue.len() implies has_issue(
        issues,
        (#[trigger] store.queue[i]).issue_id,
    ) by {
        let id = store.queue[i].issue_id;
        assert(has_issue(store.issues, id));
        let k = choose|k: int| 0 <= k < store.issues.len() && (#[trigger] store.issues[k]).issue_id == id;
        assert(issues[k].issue_id == id);
    }
    assert(issues[issues.len() - 1].issue_id == issue.issue_id);
}

/// An issue that has not been stored has no task in a consistent store.
pub proof fn lemma_fresh_issue(store: StoreView, issue_id: u128)
    requires
        consistent(store),
        !has_issue(store.issues, issue_id),
    ensures
        forall|i: int| 0 <= i < store.queue.len() ==> (#[trigger] store.queue[i]).issue_id != issue_id,
        forall|recipients: Seq<Seq<char>>| !enqueue_conflict(store.queue, issue_id, recipients),
{
    assert forall|i: int| 0 <= i < store.queue.len() implies (#[trigger] store.queue[i]).issue_id
        != issue_id by {
        assert(has_issue(store.issues, store.queue[i].issue_id));
    }
    assert forall|recipients: Seq<Seq<char>>| !enqueue_conflict(
        store.queue,
        issue_id,
        recipients,
    ) by {
        if enqueue_conflict(store.queue, issue_id, recipients) {
            let r = choose|r: int|
                0 <= r < recipients.len() && has_task(store.queue, issue_id, #[trigger] recipients[r]);
            let i = choose|i: int|
                0 <= i < store.queue.len() && task_matches(
                    #[trigger] store.queue[i],
                    issue_id,
                    recipients[r],
                );
            assert(store.queue[i].issue_id != issue_id);
        }
    }
}

/// Why the store refuses a write.
#[derive(Debug, Clone, Copy, PartialEq, Eq, Structural)]
pub enum StoreError {
    /// An issue with this identifier has been stored before.
    DuplicateIssue,
    /// The issue that the tasks are for has not been stored.
    UnknownIssue,
    /// The queue already holds one of the tasks.
    DuplicateTask,
    /// A subscription has the same identifier or the same address.
    DuplicateSubscriber,
    /// The token has been stored before.
    DuplicateToken,
    /// The subscription that the token is for does not exist.
    UnknownSubscriber,
}

/// An issue of the newsletter. Once stored it never changes.
#[derive(Debug, PartialEq, Eq)]
pub struct NewsletterIssue {
    pub issue_id: u128,
    pub title: String,
    pub text_content: String,
    pub html_content: String,
    pub published_at: u64,
}

impl View for NewsletterIssue {
    type V = IssueView;

    open spec fn view(&self) -> IssueView {
        IssueView {
            issue_id: self.issue_id,
            title: self.title@,
            text_content: self.text_content@,
            html_content: self.html_content@,
            published_at: self.published_at,
        }
    }
}

impl Clone for NewsletterIssue {
    fn clone(&self) -> (copy: Self)
        ensures
            copy@ == self@,
    {
        NewsletterIssue {
            issue_id: self.issue_id,
            title: self.title.clone(),
            text_content: self.text_content.clone(),
            html_content: self.html_content.clone(),
            published_at: self.published_at,
        }
    }
}

/// One delivery that is owed: an issue and the address it goes to.
#[derive(Debug, PartialEq, Eq)]
pub struct DeliveryTask {
    pub issue_id: u128,
    pub recipient_email: String,
}

impl Clone for DeliveryTask {
    fn clone(&self) -> (copy: Self)
        ensures
            copy == *self,
    {
        DeliveryTask { issue_id: self.issue_id, recipient_email: self.recipient_email.clone() }
    }
}

struct QueueRow {
    issue_id: u128,
    recipient_email: String,
    locked: bool,
}

impl View for QueueRow {
    type V = TaskView;

    closed spec fn view(&self) -> TaskView {
        TaskView { issue_id: self.issue_id, recipient: self.recipient_email@, locked: self.locked }
    }
}

struct Subscription {
    id: UserId,
    email: String,
    name: String,
    confirmed: bool,
}

impl View for Subscription {
    type V = SubscriberView;

    closed spec fn view(&self) -> SubscriberView {
        SubscriberView {
            id: self.id@,
            email: self.email@,
            name: self.name@,
            confirmed: self.confirmed,
        }
    }
}

struct Token {
    token: String,
    subscriber_id: UserId,
}

impl View for Token {
    type V = TokenView;

    closed spec fn view(&self) -> TokenView {
        TokenView { token: self.token@, subscriber_id: self.subscriber_id@ }
    }
}

/// The store, held in memory.
pub struct Store {
    ledger: Ledger,
    issues: Vec<NewsletterIssue>,
    queue: Vec<QueueRow>,
    subscribers: Vec<Subscription>,
    tokens: Vec<Token>,
}

impl View for Store {
    type V = StoreView;

    closed spec fn view(&self) -> StoreView {
        StoreView {
            ledger: self.ledger@,
            issues: Seq::new(self.issues@.len(), |i: int| self.issues@[i]@),
            queue: Seq::new(self.queue@.len(), |i: int| self.queue@[i]@),
            subscribers: Seq::new(self.subscribers@.len(), |i: int| self.subscribers@[i]@),
            tokens: Seq::new(self.tokens@.len(), |i: int| self.tokens@[i]@),
        }
    }
}

impl Store {
    /// The store's invariant.
    pub open spec fn wf(&self) -> bool {
        consistent(self@)
    }

    /// A store whose tables are all empty.
    pub fn new() -> (store: Self)
        ensures
            store.wf(),
            store@.ledger.len() == 0,
            store@.issues.len() == 0,
            store@.queue.len() == 0,
            store@.subscribers.len() == 0,
            store@.tokens.len() == 0,
    {
        Store {
            ledger: Ledger::new(),
            issues: Vec::new(),
            queue: Vec::new(),
            subscribers: Vec::new(),
            tokens: Vec::new(),
        }
    }

    /// Claims the key for the caller in the ledger. See [`Ledger::claim`].
    pub fn try_processing(&mut self, key: &IdempotencyKey, user_id: UserId, now: u64) -> (next:
        Result<NextAction, LedgerError>)
        requires
            old(self).wf(),
        ensures
            final(self).wf(),
            final(self)@ == claimed(old(self)@, user_id@, key@, now),
            match saved_response(old(self)@.ledger, user_id@, key@) {
                Some(response) => next matches Ok(NextAction::ReturnSavedResponse(replay))
                    && replay@ == response,
                None => if has_row(old(self)@.ledger, user_id@, key@) {
                    next matches Err(LedgerError::ResponseMissing)
                } else {
                    next matches Ok(NextAction::StartProcessing)
                },
            },
    {
        self.ledger.claim(user_id, key, now)
    }

    /// Writes the response into the ledger row that the caller has claimed
    /// for the key. See [`Ledger::save_response`].
    pub fn save_response(&mut self, key: &IdempotencyKey, user_id: UserId, response: SavedResponse)
        requires
            old(self).wf(),
        ensures
            final(self).wf(),
            final(self)@ == (StoreView {
                ledger: completed(old(self)@.ledger, user_id@, key@, response@),
                ..old(self)@
            }),
    {
        self.ledger.save_response(key, user_id, response)
    }

    /// The response that has been saved for the caller and key, if one has
    /// been.
    pub fn get_saved_response(&self, key: &IdempotencyKey, user_id: UserId) -> (saved: Option<
        SavedResponse,
    >)
        requires
            self.wf(),
        ensures
            match saved {
                Some(response) => saved_response(self@.ledger, user_id@, key@) == Some(response@),
                None => saved_response(self@.ledger, user_id@, key@) is None,
            },
    {
        self.ledger.get_saved_response(key, user_id)
    }

    /// Removes the ledger rows that were created before `older_than`, and
    /// says how many rows that were.
    pub fn purge_idempotency(&mut self, older_than: u64) -> (count: u64)
        requires
            old(self).wf(),
        ensures
            final(self).wf(),
            final(self)@ == (StoreView {
                ledger: purged(old(self)@.ledger, older_than),
                ..old(self)@
            }),
            count == old(self)@.ledger.len() - final(self)@.ledger.len(),
    {
        self.ledger.purge(older_than)
    }

    /// Takes back the caller's claim of the key, where no response has been
    /// saved for it yet. See [`Ledger::release`].
    pub fn release_claim(&mut self, key: &IdempotencyKey, user_id: UserId)
        requires
            old(self).wf(),
        ensures
            final(self).wf(),
            final(self)@ == (StoreView {
                ledger: unclaimed(old(self)@.ledger, user_id@, key@),
                ..old(self)@
            }),
    {
        self.ledger.release(key, user_id)
    }

    fn issue_position(&self, issue_id: u128) -> (found: Option<usize>)
        requires
            self.wf(),
        ensures
            match found {
                Some(at) => at < self@.issues.len() && self@.issues[at as int].issue_id == issue_id
                    && has_issue(self@.issues, issue_id) && issue_of(self@.issues, issue_id)
                    == self@.issues[at as int],
                None => !has_issue(self@.issues, issue_id),
            },
    {
        let mut i: usize = 0;
        while i < self.issues.len()
            invariant
                i <= self.issues@.len(),
                self.wf(),
                forall|j: int| 0 <= j < i ==> (#[trigger] self@.issues[j]).issue_id != issue_id,
            decreases self.issues@.len() - i,
        {
            if self.issues[i].issue_id == issue_id {
                proof {
                    let issues = self@.issues;
                    assert(issues[i as int].issue_id == issue_id);
                    let chosen = choose|k: int|
                        0 <= k < issues.len() && (#[trigger] issues[k]).issue_id == issue_id;
                    if chosen != i {
                        assert(issues[chosen].issue_id != issues[i as int].issue_id);
                    }
                }
                return Some(i);
            }
            i += 1;
        }
        None
    }

    /// Stores an issue. An issue whose identifier is taken is refused, and
    /// nothing changes.
    pub fn insert_issue(&mut self, issue: NewsletterIssue) -> (stored: Result<(), StoreError>)
        requires
            old(self).wf(),
        ensures
            final(self).wf(),
            if has_issue(old(self)@.issues, issue.issue_id) {
                stored == Err::<(), StoreError>(StoreError::DuplicateIssue) && final(self)@ == old(
                    self,
                )@
            } else {
                stored is Ok && final(self)@ == with_issue(old(self)@, issue@)
            },
    {
        if self.issue_position(issue.issue_id).is_some() {
            return Err(StoreError::DuplicateIssue);
        }
        let ghost before = self@;
        let ghost added = issue@;
        self.issues.push(issue);
        proof {
            assert(self@.issues =~= before.issues.push(added));
            lemma_issue_keeps_consistent(before, added);
        }
        Ok(())
    }

    /// The issue with this identifier, if it has been stored.
    pub fn get_issue(&self, issue_id: u128) -> (issue: Option<NewsletterIssue>)
        requires
            self.wf(),
        ensures
            match issue {
                Some(found) => has_issue(self@.issues, issue_id) && found@ == issue_of(
                    self@.issues,
                    issue_id,
                ),
                None => !has_issue(self@.issues, issue_id),
            },
    {
        match self.issue_position(issue_id) {
            Some(at) => Some(self.issues[at].clone()),
            None => None,
        }
    }

    /// The number of issues that have been stored.
    pub fn issue_count(&self) -> (count: usize)
        ensures
            count == self@.issues.len(),
    {
        self.issues.len()
    }

    /// The number of rows in the ledger.
    pub fn ledger_len(&self) -> (count: usize)
        ensures
            count == self@.ledger.len(),
    {
        self.ledger.len()
    }

    /// Whether a subscription with this identifier and address can be
    /// stored: neither is taken.
    pub fn can_subscribe(&self, id: UserId, email: &str) -> (free: bool)
        ensures
            free == !(has_subscriber(self@.subscribers, id@) || has_email(
                self@.subscribers,
                email@,
            )),
    {
        let wanted = email.to_owned();
        let mut i: usize = 0;
        while i < self.subscribers.len()
            invariant
                i <= self.subscribers@.len(),
                wanted@ == email@,
                forall|j: int|
                    0 <= j < i ==> (#[trigger] self@.subscribers[j]).id != id@
                        && self@.subscribers[j].email != email@,
            decreases self.subscribers@.len() - i,
        {
            let row = &self.subscribers[i];
            if row.id == id || row.email == wanted {
                assert(self@.subscribers[i as int].id == id@ || self@.subscribers[i as int].email
                    == email@);
                return false;
            }
            i += 1;
        }
        true
    }

    /// Writes a subscription as it is found elsewhere, for one in a store of
    /// an earlier day: the name and the address are taken as they are, valid
    /// by today's rules or not. One whose identifier or address is taken is
    /// refused, and nothing changes.
    pub fn restore_subscriber(&mut self, id: UserId, email: String, name: String, confirmed: bool) -> (stored:
        Result<(), StoreError>)
        requires
            old(self).wf(),
        ensures
            final(self).wf(),
            if has_subscriber(old(self)@.subscribers, id@) || has_email(
                old(self)@.subscribers,
                email@,
            ) {
                stored == Err::<(), StoreError>(StoreError::DuplicateSubscriber) && final(self)@
                    == old(self)@
            } else {
                stored is Ok && final(self)@ == with_subscriber(
                    old(self)@,
                    SubscriberView { id: id@, email: email@, name: name@, confirmed },
                )
            },
    {
        if !self.can_subscribe(id, email.as_str()) {
            return Err(StoreError::DuplicateSubscriber);
        }
        let ghost before = self@;
        let row = Subscription { id, email, name, confirmed };
        let ghost added = row@;
        self.subscribers.push(row);
        proof {
            assert(self@.subscribers =~= before.subscribers.push(added));
            lemma_subscriber_keeps_consistent(before, added);
        }
        Ok(())
    }

    /// Stores a subscription that awaits confirmation. One whose identifier
    /// or address is taken is refused, and nothing changes.
    pub fn insert_subscriber_with_id(&mut self, id: UserId, new_subscriber: &NewSubscriber) -> (stored:
        Result<(), StoreError>)
        requires
            old(self).wf(),
        ensures
            final(self).wf(),
            if has_subscriber(old(self)@.subscribers, id@) || has_email(
                old(self)@.subscribers,
                new_subscriber.email@,
            ) {
                stored == Err::<(), StoreError>(StoreError::DuplicateSubscriber) && final(self)@
                    == old(self)@
            } else {
                stored is Ok && final(self)@ == with_subscriber(
                    old(self)@,
                    pending_subscriber(id@, new_subscriber.email@, new_subscriber.name@),
                )
            },
    {
        self.restore_subscriber(
            id,
            new_subscriber.email.as_ref().to_owned(),
            new_subscriber.name.as_ref().to_owned(),
            false,
        )
    }

    /// Stores a subscription that awaits confirmation, under a fresh random
    /// identifier, and gives the identifier back. It is refused where the
    /// address is taken, or where the identifier that was drawn is.
    pub fn insert_subscriber(&mut self, new_subscriber: &NewSubscriber) -> (stored: Result<
        UserId,
        StoreError,
    >)
        requires
            old(self).wf(),
        ensures
            final(self).wf(),
            match stored {
                Ok(id) => !has_subscriber(old(self)@.subscribers, id@) && !has_email(
                    old(self)@.subscribers,
                    new_subscriber.email@,
                ) && final(self)@ == with_subscriber(
                    old(self)@,
                    pending_subscriber(id@, new_subscriber.email@, new_subscriber.name@),
                ),
                Err(e) => e == StoreError::DuplicateSubscriber && final(self)@ == old(self)@,
            },
            stored is Err ==> old(self)@.subscribers.len() > 0,
    {
        let subscriber_id = UserId::new_v4();
        match self.insert_subscriber_with_id(subscriber_id, new_subscriber) {
            Ok(()) => Ok(subscriber_id),
            Err(e) => {
                assert(has_email(old(self)@.subscribers, new_subscriber.email@) || has_subscriber(
                    old(self)@.subscribers,
                    subscriber_id@,
                ));
                Err(e)
            },
        }
    }

    /// Marks the subscription with this identifier as confirmed. Where there
    /// is none, nothing changes.
    pub fn confirm_subscriber(&mut self, id: UserId)
        requires
            old(self).wf(),
        ensures
            final(self).wf(),
            final(self)@ == with_confirmation(old(self)@, id@),
    {
        let ghost before = self@;
        let ghost after = with_confirmation(before, id@);
        let mut i: usize = 0;
        while i < self.subscribers.len()
            invariant
                i <= self.subscribers@.len(),
                self@ == before,
                before == old(self)@,
                consistent(before),
                after == with_confirmation(before, id@),
                forall|j: int| 0 <= j < i ==> (#[trigger] before.subscribers[j]).id != id@,
            decreases self.subscribers@.len() - i,
        {
            if self.subscribers[i].id == id {
                let old_row = self.subscribers.remove(i);
                let row = Subscription {
                    id: old_row.id,
                    email: old_row.email,
                    name: old_row.name,
                    confirmed: true,
                };
                self.subscribers.insert(i, row);
                proof {
                    assert(self@.subscribers =~= after.subscribers) by {
                        assert forall|k: int| 0 <= k < before.subscribers.len() implies self@.subscribers[k]
                            == after.subscribers[k] by {
                            if k != i {
                                assert(before.subscribers[k].id != before.subscribers[i as int].id);
                            }
                        }
                    }
                    assert(self@ == after);
                    lemma_confirmation_keeps_consistent(before, id@);
                }
                return ;
            }
            i += 1;
        }
        proof {
            assert(after.subscribers =~= before.subscribers);
        }
    }

    /// The addresses of the confirmed subscribers, in the order of their
    /// subscriptions.
    pub fn confirmed_subscribers(&self) -> (emails: Vec<String>)
        ensures
            emails@.len() == audience(self@.subscribers).len(),
            forall|i: int|
                0 <= i < emails@.len() ==> (#[trigger] emails@[i])@ == audience(
                    self@.subscribers,
                )[i],
    {
        let mut emails: Vec<String> = Vec::new();
        let mut i: usize = 0;
        assert(self@.subscribers.take(0) =~= Seq::<SubscriberView>::empty());
        while i < self.subscribers.len()
            invariant
                i <= self.subscribers@.len(),
                emails@.len() == audience(self@.subscribers.take(i as int)).len(),
                forall|k: int|
                    0 <= k < emails@.len() ==> (#[trigger] emails@[k])@ == audience(
                        self@.subscribers.take(i as int),
                    )[k],
            decreases self.subscribers@.len() - i,
        {
            proof {
                let done = self@.subscribers.take(i + 1);
                assert(done.drop_last() =~= self@.subscribers.take(i as int));
                assert(done.last() == self@.subscribers[i as int]);
            }
            if self.subscribers[i].confirmed {
                emails.push(self.subscribers[i].email.clone());
            }
            i += 1;
        }
        assert(self@.subscribers.take(i as int) =~= self@.subscribers);
        emails
    }

    /// The confirmed subscribers, in the order of their subscriptions: for
    /// each the address, where it is a valid one, and else what is wrong
    /// with it.
    pub fn get_confirmed_subscribers(&self) -> (found: Vec<Result<SubscriberEmail, String>>)
        ensures
            found@.len() == audience(self@.subscribers).len(),
            forall|i: int|
                0 <= i < found@.len() ==> match #[trigger] found@[i] {
                    Ok(email) => email_is_valid(audience(self@.subscribers)[i]) && email@
                        == audience(self@.subscribers)[i],
                    Err(message) => !email_is_valid(audience(self@.subscribers)[i]) && message@
                        == audience(self@.subscribers)[i] + " is not a valid subscriber email"@,
                },
    {
        let ghost recipients = audience(self@.subscribers);
        let emails = self.confirmed_subscribers();
        let mut found: Vec<Result<SubscriberEmail, String>> = Vec::new();
        for email in it: emails
            invariant
                it.seq().len() == recipients.len(),
                forall|j: int| 0 <= j < it.seq().len() ==> (#[trigger] it.seq()[j])@ == recipients[j],
                found@.len() == it.index(),
                forall|i: int|
                    0 <= i < found@.len() ==> match #[trigger] found@[i] {
                        Ok(email) => email_is_valid(recipients[i]) && email@ == recipients[i],
                        Err(message) => !email_is_valid(recipients[i]) && message@ == recipients[i]
                            + " is not a valid subscriber email"@,
                    },
        {
            found.push(SubscriberEmail::parse(email));
        }
        found
    }

    /// Stores a confirmation token for a subscription. A token that has
    /// been stored before is refused, and so is one for a subscription that
    /// does not exist; nothing changes then.
    pub fn store_token(&mut self, subscription_token: &str, subscriber_id: UserId) -> (stored: Result<
        (),
        StoreError,
    >)
        requires
            old(self).wf(),
        ensures
            final(self).wf(),
            if has_token(old(self)@.tokens, subscription_token@) {
                stored == Err::<(), StoreError>(StoreError::DuplicateToken) && final(self)@ == old(
                    self,
                )@
            } else if !has_subscriber(old(self)@.subscribers, subscriber_id@) {
                stored == Err::<(), StoreError>(StoreError::UnknownSubscriber) && final(self)@
                    == old(self)@
            } else {
                stored is Ok && final(self)@ == with_token(
                    old(self)@,
                    TokenView { token: subscription_token@, subscriber_id: subscriber_id@ },
                )
            },
    {
        if self.token_position(subscription_token).is_some() {
            return Err(StoreError::DuplicateToken);
        }
        let mut known = false;
        let mut i: usize = 0;
        while i < self.subscribers.len()
            invariant
                i <= self.subscribers@.len(),
                known == exists|j: int|
                    0 <= j < i && (#[trigger] self@.subscribers[j]).id == subscriber_id@,
            decreases self.subscribers@.len() - i,
        {
            if self.subscribers[i].id == subscriber_id {
                known = true;
                assert(self@.subscribers[i as int].id == subscriber_id@);
            }
            i += 1;
        }
        if !known {
            return Err(StoreError::UnknownSubscriber);
        }
        let ghost before = self@;
        let row = Token { token: subscription_token.to_owned(), subscriber_id };
        let ghost added = row@;
        self.tokens.push(row);
        proof {
            let after = before.tokens.push(added);
            assert(self@.tokens =~= after);
            assert(self@ == with_token(before, added));
            assert forall|i: int, j: int|
                #![trigger after[i], after[j]]
                0 <= i < after.len() && 0 <= j < after.len() && i != j implies after[i].token
                != after[j].token by {
                if i < before.tokens.len() && j < before.tokens.len() {
                    assert(before.tokens[i].token != before.tokens[j].token);
                }
            }
            assert forall|i: int| 0 <= i < after.len() implies has_subscriber(
                before.subscribers,
                (#[trigger] after[i]).subscriber_id,
            ) by {
                if i < before.tokens.len() {
                    assert(after[i] == before.tokens[i]);
                }
            }
        }
        Ok(())
    }

    fn token_position(&self, token: &str) -> (found: Option<usize>)
        requires
            self.wf(),
        ensures
            match found {
                Some(at) => at < self@.tokens.len() && self@.tokens[at as int].token == token@
                    && has_token(self@.tokens, token@) && token_owner(self@.tokens, token@)
                    == self@.tokens[at as int].subscriber_id,
                None => !has_token(self@.tokens, token@),
            },
    {
        let wanted = token.to_owned();
        let mut i: usize = 0;
        while i < self.tokens.len()
            invariant
                i <= self.tokens@.len(),
                self.wf(),
                wanted@ == token@,
                forall|j: int| 0 <= j < i ==> (#[trigger] self@.tokens[j]).token != token@,
            decreases self.tokens@.len() - i,
        {
            if self.tokens[i].token == wanted {
                proof {
                    let tokens = self@.tokens;
                    assert(tokens[i as int].token == token@);
                    let chosen = choose|k: int|
                        0 <= k < tokens.len() && (#[trigger] tokens[k]).token == token@;
                    if chosen != i {
                        assert(tokens[chosen].token != tokens[i as int].token);
                    }
                }
                return Some(i);
            }
            i += 1;
        }
        None
    }

    /// The subscriber that the token was stored for, if it has been stored.
    pub fn get_subscriber_id_with_token(&self, token: &str) -> (owner: Option<UserId>)
        requires
            self.wf(),
        ensures
            match owner {
                Some(id) => has_token(self@.tokens, token@) && id@ == token_owner(
                    self@.tokens,
                    token@,
                ),
                None => !has_token(self@.tokens, token@),
            },
    {
        match self.token_position(token) {
            Some(at) => Some(self.tokens[at].subscriber_id),
            None => None,
        }
    }

    fn task_position(&self, issue_id: u128, recipient: &String) -> (found: Option<usize>)
        requires
            self.wf(),
        ensures
            match found {
                Some(at) => at < self@.queue.len() && task_matches(
                    self@.queue[at as int],
                    issue_id,
                    recipient@,
                ) && has_task(self@.queue, issue_id, recipient@),
                None => !has_task(self@.queue, issue_id, recipient@),
            },
    {
        let mut i: usize = 0;
        while i < self.queue.len()
            invariant
                i <= self.queue@.len(),
                forall|j: int|
                    0 <= j < i ==> !task_matches(#[trigger] self@.queue[j], issue_id, recipient@),
            decreases self.queue@.len() - i,
        {
            let row = &self.queue[i];
            if row.issue_id == issue_id && row.recipient_email == *recipient {
                assert(task_matches(self@.queue[i as int], issue_id, recipient@));
                return Some(i);
            }
            i += 1;
        }
        None
    }

    /// Writes one task for each subscriber who is confirmed at this moment:
    /// the audience of the issue is fixed here, whoever is confirmed later.
    /// An issue that has not been stored is refused, and so is an issue one
    /// of whose tasks the queue already holds; nothing changes then.
    pub fn enqueue_delivery_tasks(&mut self, issue_id: u128) -> (queued: Result<(), StoreError>)
        requires
            old(self).wf(),
        ensures
            final(self).wf(),
            if !has_issue(old(self)@.issues, issue_id) {
                queued == Err::<(), StoreError>(StoreError::UnknownIssue) && final(self)@ == old(
                    self,
                )@
            } else if enqueue_conflict(
                old(self)@.queue,
                issue_id,
                audience(old(self)@.subscribers),
            ) {
                queued == Err::<(), StoreError>(StoreError::DuplicateTask) && final(self)@ == old(
                    self,
                )@
            } else {
                queued is Ok && final(self)@ == with_tasks(old(self)@, issue_id)
            },
    {
        if self.issue_position(issue_id).is_none() {
            return Err(StoreError::UnknownIssue);
        }
        let ghost before = self@;
        let ghost recipients = audience(before.subscribers);
        let emails = self.confirmed_subscribers();
        let mut i: usize = 0;
        while i < emails.len()
            invariant
                i <= emails@.len(),
                self.wf(),
                self@ == before,
                before == old(self)@,
                has_issue(before.issues, issue_id),
                recipients == audience(before.subscribers),
                emails@.len() == recipients.len(),
                forall|k: int| 0 <= k < emails@.len() ==> (#[trigger] emails@[k])@ == recipients[k],
                forall|k: int| 0 <= k < i ==> !has_task(before.queue, issue_id, #[trigger] recipients[k]),
            decreases emails@.len() - i,
        {
            if self.task_position(issue_id, &emails[i]).is_some() {
                assert(has_task(before.queue, issue_id, recipients[i as int]));
                return Err(StoreError::DuplicateTask);
            }
            i += 1;
        }
        proof {
            lemma_tasks_keep_consistent(before, issue_id);
        }
        let ghost target = with_tasks(before, issue_id);
        let ghost new_tasks = tasks_for(issue_id, recipients);
        assert(new_tasks.take(0) =~= Seq::<TaskView>::empty());
        assert(self@.queue =~= before.queue + new_tasks.take(0));
        for email in it: emails
            invariant
                it.seq().len() == recipients.len(),
                forall|j: int| 0 <= j < it.seq().len() ==> (#[trigger] it.seq()[j])@ == recipients[j],
                new_tasks == tasks_for(issue_id, recipients),
                self@ == (StoreView {
                    queue: before.queue + new_tasks.take(it.index() as int),
                    ..before
                }),
        {
            let ghost k = it.index() as int;
            let row = QueueRow { issue_id, recipient_email: email, locked: false };
            proof {
                assert(row@ == new_tasks[k]);
                assert((before.queue + new_tasks.take(k)).push(row@) =~= before.queue
                    + new_tasks.take(k + 1));
            }
            let ghost queue_before = self@.queue;
            self.queue.push(row);
            assert(self@.queue =~= queue_before.push(row@));
        }
        assert(new_tasks.take(new_tasks.len() as int) =~= new_tasks);
        Ok(())
    }

    /// Hands the first task that no worker holds to the caller, and marks it
    /// as held. Tasks that other workers hold are passed over, not waited
    /// for.
    pub fn dequeue_task(&mut self) -> (task: Option<DeliveryTask>)
        requires
            old(self).wf(),
        ensures
            final(self).wf(),
            if has_pending(old(self)@.queue) {
                let at = first_pending(old(self)@.queue);
                &&& task matches Some(found)
                &&& found.issue_id == old(self)@.queue[at].issue_id
                &&& found.recipient_email@ == old(self)@.queue[at].recipient
                &&& final(self)@ == with_queue(old(self)@, locked_at(old(self)@.queue, at))
            } else {
                task is None && final(self)@ == old(self)@
            },
    {
        let ghost before = self@;
        let mut i: usize = 0;
        while i < self.queue.len()
            invariant
                i <= self.queue@.len(),
                self@ == before,
                before == old(self)@,
                consistent(before),
                forall|j: int| 0 <= j < i ==> (#[trigger] before.queue[j]).locked,
            decreases self.queue@.len() - i,
        {
            if !self.queue[i].locked {
                proof {
                    lemma_first_pending(before.queue, i as int);
                    lemma_lock_keeps_consistent(before, i as int);
                }
                let old_row = self.queue.remove(i);
                let task = DeliveryTask {
                    issue_id: old_row.issue_id,
                    recipient_email: old_row.recipient_email.clone(),
                };
                let row = QueueRow {
                    issue_id: old_row.issue_id,
                    recipient_email: old_row.recipient_email,
                    locked: true,
                };
                self.queue.insert(i, row);
                assert(self@.queue =~= locked_at(before.queue, i as int));
                return Some(task);
            }
            i += 1;
        }
        None
    }

    /// Removes the task of this issue and recipient from the queue, held or
    /// not. Where the queue has no such task, nothing changes.
    pub fn delete_task(&mut self, issue_id: u128, email: &str)
        requires
            old(self).wf(),
        ensures
            final(self).wf(),
            final(self)@ == with_queue(old(self)@, without_task(old(self)@.queue, issue_id, email@)),
    {
        let ghost before = self@;
        let ghost keep = |task: TaskView| !task_matches(task, issue_id, email@);
        let wanted = email.to_owned();
        match self.task_position(issue_id, &wanted) {
            None => {
                proof {
                    lemma_filter_all(before.queue, keep);
                }
            },
            Some(at) => {
                self.queue.remove(at);
                proof {
                    assert(self@.queue =~= before.queue.remove(at as int));
                    assert forall|i: int| 0 <= i < before.queue.len() && i != at implies keep(
                        #[trigger] before.queue[i],
                    ) by {
                        assert(!task_matches(
                            before.queue[i],
                            before.queue[at as int].issue_id,
                            before.queue[at as int].recipient,
                        ));
                    }
                    lemma_filter_one_out(before.queue, keep, at as int);
                    lemma_remove_keeps_consistent(before, at as int);
                }
            },
        }
    }

    /// Gives the task of this issue and recipient up: it stays in the queue
    /// and is no longer held. This is what the store does when a worker
    /// fails before it has removed the task.
    pub fn release_task(&mut self, issue_id: u128, email: &str)
        requires
            old(self).wf(),
        ensures
            final(self).wf(),
            final(self)@ == with_queue(old(self)@, released(old(self)@.queue, issue_id, email@)),
    {
        let ghost before = self@;
        let ghost after = released(before.queue, issue_id, email@);
        let wanted = email.to_owned();
        proof {
            lemma_release_keeps_consistent(before, issue_id, email@);
        }
        match self.task_position(issue_id, &wanted) {
            None => {
                assert(after =~= before.queue);
            },
            Some(at) => {
                let old_row = self.queue.remove(at);
                let row = QueueRow {
                    issue_id: old_row.issue_id,
                    recipient_email: old_row.recipient_email,
                    locked: false,
                };
                self.queue.insert(at, row);
                assert(self@.queue =~= after) by {
                    assert forall|i: int| 0 <= i < before.queue.len() implies self@.queue[i]
                        == after[i] by {
                        if i != at {
                            assert(!task_matches(
                                before.queue[i],
                                before.queue[at as int].issue_id,
                                before.queue[at as int].recipient,
                            ));
                        }
                    }
                }
            },
        }
    }

    /// The number of tasks in the queue, held or not.
    pub fn queue_len(&self) -> (count: usize)
        ensures
            count == self@.queue.len(),
    {
        self.queue.len()
    }

    /// Whether the queue holds the task of this issue and recipient.
    pub fn has_task(&self, issue_id: u128, email: &str) -> (found: bool)
        requires
            self.wf(),
        ensures
            found == has_task(self@.queue, issue_id, email@),
    {
        let wanted = email.to_owned();
        self.task_position(issue_id, &wanted).is_some()
    }
}

} // verus!
