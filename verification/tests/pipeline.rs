use std::cell::RefCell;

use zero2prod::domain::{NewSubscriber, UserId};
use zero2prod::idempotency::{
    HeaderPairRecord, Headers, IdempotencyKey, InvalidKey, SavedResponse,
};
use zero2prod::idempotency_purge_worker::{
    pause_after_purge, purge_cutoff, purge_expired_idempotencies,
};
use zero2prod::issue_delivery_worker::{
    begin_turn, pause_after, try_execute_task, turn_step, Attempt, ExecutionError,
    ExecutionOutcome, Turn, TurnAction, TurnEvent,
};
use zero2prod::routes::newsletters::{
    begin_publishing, publish_step, publish_step_with, FormData, PublishAction, PublishEvent,
    Publishing,
};
use zero2prod::routes::{
    publish, publish_newsletter, publish_newsletter_as, BodyData, Content, PublishError,
};
use zero2prod::store::{DeliveryTask, NewsletterIssue, Store, StoreError};
use zero2prod::utils::e500;

const CALLER: UserId = UserId(7);

fn key(text: &str) -> IdempotencyKey {
    IdempotencyKey::parse(text.to_string()).unwrap()
}

fn body() -> BodyData {
    BodyData {
        title: "Newsletter Title".to_string(),
        content: Content {
            html: "<p>Newsletter body as HTML</p>".to_string(),
            text: "Newsletter body as plain text".to_string(),
        },
    }
}

fn form(idempotency_key: &str) -> FormData {
    FormData {
        title: "Newsletter Title".to_string(),
        html_content: "<p>Newsletter body as HTML</p>".to_string(),
        text_content: "Newsletter body as plain text".to_string(),
        idempotency_key: idempotency_key.to_string(),
    }
}

fn accepted() -> SavedResponse {
    SavedResponse::new(
        303,
        Headers::new(vec![HeaderPairRecord::new(
            "location",
            b"/admin/newsletters",
        )]),
        Vec::new(),
    )
    .unwrap()
}

fn create_unconfirmed_subscriber(store: &mut Store, id: u128, email: &str) {
    let subscriber = NewSubscriber::parse("Ursula".to_string(), email.to_string()).unwrap();
    assert_eq!(store.insert_subscriber_with_id(UserId(id), &subscriber), Ok(()));
}

fn create_confirmed_subscriber(store: &mut Store, id: u128, email: &str) {
    create_unconfirmed_subscriber(store, id, email);
    store.confirm_subscriber(UserId(id));
}

/// Runs one worker until the queue is empty, with a transport that does as
/// `send` says, and gives back how many tasks were completed.
fn run_worker(store: &mut Store, send: &dyn Fn(&str, &NewsletterIssue) -> Result<(), String>) -> usize {
    let mut completed = 0;
    loop {
        let turn = try_execute_task(store, |recipient, issue| {
            send(recipient.as_ref(), issue).is_ok()
        });
        match turn {
            Ok(ExecutionOutcome::EmptyQueue) => return completed,
            Ok(ExecutionOutcome::TaskCompleted) => completed += 1,
            Err(e) => panic!("the store in memory does not fail: {e:?}"),
        }
    }
}

fn task(issue_id: u128, recipient: &str) -> DeliveryTask {
    DeliveryTask {
        issue_id,
        recipient_email: recipient.to_string(),
    }
}

fn issue(issue_id: u128) -> NewsletterIssue {
    NewsletterIssue {
        issue_id,
        title: "Newsletter Title".to_string(),
        text_content: "Newsletter body as plain text".to_string(),
        html_content: "<p>Newsletter body as HTML</p>".to_string(),
        published_at: 5000,
    }
}

#[test]
fn publishing_twice_with_one_key_has_the_effect_of_publishing_once() {
    let mut store = Store::new();
    create_confirmed_subscriber(&mut store, 1, "one@example.com");
    create_confirmed_subscriber(&mut store, 2, "two@example.com");

    let first = publish(&mut store, CALLER, &key("K1"), &body(), 100, 5000);
    assert_eq!(first, Ok(accepted()));
    assert_eq!(store.issue_count(), 1);
    assert_eq!(store.queue_len(), 2);
    assert!(store.has_task(100, "one@example.com"));
    assert!(store.has_task(100, "two@example.com"));
    assert_eq!(
        store.get_issue(100),
        Some(NewsletterIssue {
            issue_id: 100,
            title: "Newsletter Title".to_string(),
            text_content: "Newsletter body as plain text".to_string(),
            html_content: "<p>Newsletter body as HTML</p>".to_string(),
            published_at: 5000,
        })
    );

    let sends: RefCell<Vec<String>> = RefCell::new(Vec::new());
    let completed = run_worker(&mut store, &|recipient, issue| {
        assert_eq!(issue.issue_id, 100);
        sends.borrow_mut().push(recipient.to_string());
        Ok(())
    });
    assert_eq!(completed, 2);
    assert_eq!(store.queue_len(), 0);
    assert_eq!(
        *sends.borrow(),
        vec!["one@example.com".to_string(), "two@example.com".to_string()]
    );

    let second = publish(&mut store, CALLER, &key("K1"), &body(), 101, 6000);
    assert_eq!(second, first);
    assert_eq!(
        second.unwrap().to_row(),
        accepted().to_row(),
        "the replay is the first response byte for byte"
    );
    assert_eq!(store.issue_count(), 1);
    assert_eq!(store.queue_len(), 0);
    assert_eq!(store.get_issue(101), None);
    assert_eq!(store.ledger_len(), 1);
    assert_eq!(run_worker(&mut store, &|_, _| Ok(())), 0);
    assert_eq!(sends.borrow().len(), 2);
}

#[test]
fn a_failed_delivery_is_not_tried_again() {
    let mut store = Store::new();
    create_confirmed_subscriber(&mut store, 1, "one@example.com");
    create_confirmed_subscriber(&mut store, 2, "two@example.com");
    assert_eq!(
        publish(&mut store, CALLER, &key("K1"), &body(), 100, 5000),
        Ok(accepted())
    );

    let attempts: RefCell<Vec<String>> = RefCell::new(Vec::new());
    let completed = run_worker(&mut store, &|recipient, _| {
        attempts.borrow_mut().push(recipient.to_string());
        if recipient == "two@example.com" {
            Err("the transport answered with status 500".to_string())
        } else {
            Ok(())
        }
    });
    assert_eq!(completed, 2);
    assert_eq!(store.queue_len(), 0);
    assert!(!store.has_task(100, "two@example.com"));
    // More turns of the worker find nothing: there is no retry.
    assert_eq!(run_worker(&mut store, &|_, _| panic!("nothing is left to send")), 0);
    assert_eq!(
        *attempts.borrow(),
        vec!["one@example.com".to_string(), "two@example.com".to_string()]
    );
}

#[test]
fn newsletter_creation_is_idempotent() {
    let mut store = Store::new();
    create_confirmed_subscriber(&mut store, 1, "one@example.com");
    let first = publish_newsletter(&mut store, CALLER, form("0f1e2d3c-4b5a"), 10);
    assert_eq!(first, Ok(accepted()));
    let second = publish_newsletter(&mut store, CALLER, form("0f1e2d3c-4b5a"), 11);
    assert_eq!(second, Ok(accepted()));
    assert_eq!(store.issue_count(), 1);
    assert_eq!(store.queue_len(), 1);
    let sends = RefCell::new(0);
    run_worker(&mut store, &|_, _| {
        *sends.borrow_mut() += 1;
        Ok(())
    });
    assert_eq!(*sends.borrow(), 1);
}

#[test]
fn concurrent_form_submission_is_handled_gracefully() {
    // Two submissions of one form: whichever is carried out second gets the
    // response of the first.
    let mut store = Store::new();
    create_confirmed_subscriber(&mut store, 1, "one@example.com");
    let response1 = publish_newsletter_as(&mut store, CALLER, form("same-key"), 1, 10);
    let response2 = publish_newsletter_as(&mut store, CALLER, form("same-key"), 2, 10);
    assert_eq!(response1, response2);
    let one = response1.unwrap();
    let two = response2.unwrap();
    assert_eq!(one.status(), two.status());
    assert_eq!(one.body(), two.body());
    assert_eq!(store.queue_len(), 1);
}

#[test]
fn newsletters_are_not_delivered_to_unconfirmed_subscribers() {
    let mut store = Store::new();
    create_unconfirmed_subscriber(&mut store, 1, "one@example.com");
    let response = publish_newsletter(&mut store, CALLER, form("key"), 10);
    assert_eq!(response, Ok(accepted()));
    assert_eq!(store.queue_len(), 0);
    assert_eq!(
        run_worker(&mut store, &|_, _| panic!("nobody is to get this issue")),
        0
    );
}

#[test]
fn newsletters_are_delivered_to_confirmed_subscribers() {
    let mut store = Store::new();
    create_confirmed_subscriber(&mut store, 1, "one@example.com");
    let response = publish_newsletter(&mut store, CALLER, form("key"), 10);
    assert_eq!(response, Ok(accepted()));
    let sends: RefCell<Vec<String>> = RefCell::new(Vec::new());
    run_worker(&mut store, &|recipient, issue| {
        assert_eq!(issue.title, "Newsletter Title");
        assert_eq!(issue.html_content, "<p>Newsletter body as HTML</p>");
        assert_eq!(issue.text_content, "Newsletter body as plain text");
        sends.borrow_mut().push(recipient.to_string());
        Ok(())
    });
    assert_eq!(*sends.borrow(), vec!["one@example.com".to_string()]);
}

#[test]
fn create_10_confirmed_subscribers_and_send_a_newsletter_to_them() {
    let mut store = Store::new();
    for i in 0..10u128 {
        create_confirmed_subscriber(&mut store, i, &format!("subscriber{i}@example.com"));
    }
    assert_eq!(
        publish_newsletter(&mut store, CALLER, form("ten"), 10),
        Ok(accepted())
    );
    assert_eq!(store.queue_len(), 10);
    let sends = RefCell::new(0);
    let completed = run_worker(&mut store, &|_, _| {
        *sends.borrow_mut() += 1;
        Ok(())
    });
    assert_eq!(completed, 10);
    assert_eq!(*sends.borrow(), 10);
    assert_eq!(store.queue_len(), 0);
}

#[test]
fn a_subscriber_confirmed_after_publication_does_not_get_the_issue() {
    let mut store = Store::new();
    create_confirmed_subscriber(&mut store, 1, "early@example.com");
    create_unconfirmed_subscriber(&mut store, 2, "late@example.com");
    assert_eq!(
        publish(&mut store, CALLER, &key("K1"), &body(), 100, 5000),
        Ok(accepted())
    );
    // The worker has not started yet when the second subscriber confirms.
    store.confirm_subscriber(UserId(2));
    create_confirmed_subscriber(&mut store, 3, "later@example.com");
    assert_eq!(
        store.confirmed_subscribers(),
        vec![
            "early@example.com".to_string(),
            "late@example.com".to_string(),
            "later@example.com".to_string()
        ]
    );
    assert_eq!(store.queue_len(), 1);
    let sends: RefCell<Vec<(u128, String)>> = RefCell::new(Vec::new());
    run_worker(&mut store, &|recipient, issue| {
        sends.borrow_mut().push((issue.issue_id, recipient.to_string()));
        Ok(())
    });
    assert_eq!(*sends.borrow(), vec![(100, "early@example.com".to_string())]);
    // The next issue goes to all three.
    assert_eq!(
        publish(&mut store, CALLER, &key("K2"), &body(), 101, 6000),
        Ok(accepted())
    );
    assert_eq!(store.queue_len(), 3);
}

#[test]
fn two_workers_never_hold_the_same_task() {
    let mut store = Store::new();
    create_confirmed_subscriber(&mut store, 1, "one@example.com");
    create_confirmed_subscriber(&mut store, 2, "two@example.com");
    publish(&mut store, CALLER, &key("K1"), &body(), 100, 5000).unwrap();

    let first = store.dequeue_task().unwrap();
    let second = store.dequeue_task().unwrap();
    assert_ne!(first, second);
    assert_eq!(
        first,
        DeliveryTask {
            issue_id: 100,
            recipient_email: "one@example.com".to_string()
        }
    );
    assert_eq!(
        second,
        DeliveryTask {
            issue_id: 100,
            recipient_email: "two@example.com".to_string()
        }
    );
    // Both tasks are held: a third worker finds nothing, though the queue
    // is not empty.
    assert_eq!(store.dequeue_task(), None);
    assert_eq!(
        try_execute_task(&mut store, |_, _| panic!("every task is held")),
        Ok(ExecutionOutcome::EmptyQueue)
    );
    assert_eq!(store.queue_len(), 2);

    // The workers finish in the other order.
    store.delete_task(second.issue_id, &second.recipient_email);
    assert_eq!(store.queue_len(), 1);
    assert!(store.has_task(100, "one@example.com"));
    assert_eq!(store.dequeue_task(), None);
    store.delete_task(first.issue_id, &first.recipient_email);
    assert_eq!(store.queue_len(), 0);
    assert_eq!(store.dequeue_task(), None);
}

#[test]
fn an_abandoned_task_can_be_taken_again() {
    let mut store = Store::new();
    create_confirmed_subscriber(&mut store, 1, "one@example.com");
    publish(&mut store, CALLER, &key("K1"), &body(), 100, 5000).unwrap();
    let task = store.dequeue_task().unwrap();
    assert_eq!(store.dequeue_task(), None);
    store.release_task(task.issue_id, &task.recipient_email);
    assert_eq!(store.queue_len(), 1);
    assert_eq!(store.dequeue_task(), Some(task));
}

#[test]
fn a_task_with_an_invalid_address_is_dropped_unsent() {
    let mut store = Store::new();
    // A subscription from an earlier day, whose address is none by today's
    // rules, between two that are fine.
    create_confirmed_subscriber(&mut store, 1, "one@example.com");
    assert_eq!(
        store.restore_subscriber(
            UserId(2),
            "not-an-address".to_string(),
            "Old Timer".to_string(),
            true
        ),
        Ok(())
    );
    create_confirmed_subscriber(&mut store, 3, "three@example.com");
    publish(&mut store, CALLER, &key("K1"), &body(), 100, 5000).unwrap();
    assert_eq!(store.queue_len(), 3);

    let sends: RefCell<Vec<String>> = RefCell::new(Vec::new());
    let send = |recipient: &zero2prod::domain::SubscriberEmail, _: &NewsletterIssue| {
        sends.borrow_mut().push(recipient.as_ref().to_string());
        true
    };
    assert_eq!(
        try_execute_task(&mut store, &send),
        Ok(ExecutionOutcome::TaskCompleted)
    );
    assert_eq!(*sends.borrow(), vec!["one@example.com".to_string()]);
    // The second task is removed without a sending.
    assert_eq!(
        try_execute_task(&mut store, &send),
        Ok(ExecutionOutcome::TaskCompleted)
    );
    assert_eq!(sends.borrow().len(), 1);
    assert_eq!(store.queue_len(), 1);
    assert!(!store.has_task(100, "not-an-address"));
    assert_eq!(
        try_execute_task(&mut store, &send),
        Ok(ExecutionOutcome::TaskCompleted)
    );
    assert_eq!(
        *sends.borrow(),
        vec!["one@example.com".to_string(), "three@example.com".to_string()]
    );
    assert_eq!(store.queue_len(), 0);
    assert_eq!(
        try_execute_task(&mut store, &send),
        Ok(ExecutionOutcome::EmptyQueue)
    );
}

#[test]
fn a_subscription_gets_a_fresh_identifier() {
    let mut store = Store::new();
    let one = NewSubscriber::parse("a".to_string(), "a@example.com".to_string()).unwrap();
    let two = NewSubscriber::parse("b".to_string(), "b@example.com".to_string()).unwrap();
    let first = store.insert_subscriber(&one).unwrap();
    let second = store.insert_subscriber(&two).unwrap();
    assert_ne!(first, second);
    assert_eq!(
        store.insert_subscriber(&one),
        Err(StoreError::DuplicateSubscriber)
    );
    store.confirm_subscriber(second);
    assert_eq!(
        store.confirmed_subscribers(),
        vec!["b@example.com".to_string()]
    );
    // Confirming somebody unknown changes nothing.
    store.confirm_subscriber(UserId(0));
    assert_eq!(
        store.confirmed_subscribers(),
        vec!["b@example.com".to_string()]
    );
}

#[test]
fn completing_a_task_that_is_not_there_changes_nothing() {
    let mut store = Store::new();
    create_confirmed_subscriber(&mut store, 1, "one@example.com");
    publish(&mut store, CALLER, &key("K1"), &body(), 100, 5000).unwrap();
    let stranger = DeliveryTask {
        issue_id: 100,
        recipient_email: "nobody@example.com".to_string(),
    };
    store.delete_task(stranger.issue_id, &stranger.recipient_email);
    assert_eq!(store.queue_len(), 1);
    store.delete_task(999, "one@example.com");
    assert_eq!(store.queue_len(), 1);
    store.release_task(999, "one@example.com");
    assert_eq!(store.queue_len(), 1);
}

#[test]
fn an_issue_identifier_that_is_taken_fails_the_request_and_leaves_no_trace() {
    let mut store = Store::new();
    create_confirmed_subscriber(&mut store, 1, "one@example.com");
    publish(&mut store, CALLER, &key("K1"), &body(), 100, 5000).unwrap();
    assert_eq!(
        publish(&mut store, CALLER, &key("K2"), &body(), 100, 6000),
        Err(PublishError::DuplicateIssue)
    );
    assert_eq!(store.issue_count(), 1);
    assert_eq!(store.queue_len(), 1);
    assert_eq!(store.ledger_len(), 1);
    assert_eq!(store.get_saved_response(&key("K2"), CALLER), None);
    // The claim was taken back, so the retry starts afresh and goes through.
    assert_eq!(
        publish(&mut store, CALLER, &key("K2"), &body(), 101, 6000),
        Ok(accepted())
    );
    assert_eq!(store.issue_count(), 2);
    assert_eq!(store.queue_len(), 2);
}

#[test]
fn a_key_that_is_claimed_without_a_response_is_an_error() {
    let mut store = Store::new();
    store.try_processing(&key("K1"), CALLER, 10).unwrap();
    assert_eq!(
        publish(&mut store, CALLER, &key("K1"), &body(), 100, 5000),
        Err(PublishError::ResponseMissing)
    );
    assert_eq!(store.issue_count(), 0);
    assert_eq!(store.queue_len(), 0);
    let reply = publish_newsletter(&mut store, CALLER, form("K1"), 5000).unwrap_err();
    assert_eq!(reply.status(), 500);
    assert_eq!(
        reply.body(),
        &b"We expected a saved response, we didn't find it".to_vec()
    );
    // Once the claim is given up, the key is free again.
    store.release_claim(&key("K1"), CALLER);
    assert_eq!(
        publish(&mut store, CALLER, &key("K1"), &body(), 100, 5000),
        Ok(accepted())
    );
}

#[test]
fn a_form_with_a_bad_key_never_reaches_the_store() {
    let mut store = Store::new();
    create_confirmed_subscriber(&mut store, 1, "one@example.com");
    for (bad, message) in [
        ("", "The idempotency key cannot be empty"),
        (
            "0123456789012345678901234567890123456789012345678901234567890123456789",
            "The idempotency key must be shorter than 50 characters",
        ),
        ("k\u{e9}y", "The idempotency key must be printable ASCII"),
    ] {
        let reply = publish_newsletter(&mut store, CALLER, form(bad), 10).unwrap_err();
        assert_eq!(reply.status(), 400);
        assert_eq!(reply.body(), &message.as_bytes().to_vec());
        assert_eq!(
            reply.headers(),
            &Headers::new(vec![HeaderPairRecord::new(
                "content-type",
                b"text/plain; charset=utf-8"
            )])
        );
    }
    assert_eq!(store.ledger_len(), 0);
    assert_eq!(store.issue_count(), 0);
    assert_eq!(store.queue_len(), 0);
}

#[test]
fn each_failure_to_publish_has_its_response() {
    let bad = PublishError::ValidationError(InvalidKey::Empty).into_response();
    assert_eq!(bad.status(), 400);
    let missing = PublishError::ResponseMissing.into_response();
    assert_eq!(missing.status(), 500);
    let duplicate = PublishError::DuplicateIssue.into_response();
    assert_eq!(duplicate.status(), 500);
    assert_eq!(
        duplicate.body(),
        &b"Failed to store newsletter issue details".to_vec()
    );
}

#[test]
fn each_publication_gets_its_own_issue() {
    let mut store = Store::new();
    create_confirmed_subscriber(&mut store, 1, "one@example.com");
    for i in 0..5 {
        assert_eq!(
            publish_newsletter(&mut store, CALLER, form(&format!("key-{i}")), 10),
            Ok(accepted())
        );
    }
    assert_eq!(store.issue_count(), 5);
    assert_eq!(store.queue_len(), 5);
    assert_eq!(store.ledger_len(), 5);
    // The same keys from another caller are other requests.
    assert_eq!(
        publish_newsletter(&mut store, UserId(8), form("key-0"), 10),
        Ok(accepted())
    );
    assert_eq!(store.issue_count(), 6);
}

#[test]
fn tasks_are_written_for_stored_issues_only_and_only_once() {
    let mut store = Store::new();
    create_confirmed_subscriber(&mut store, 1, "one@example.com");
    assert_eq!(
        store.enqueue_delivery_tasks(5),
        Err(StoreError::UnknownIssue)
    );
    let issue = NewsletterIssue {
        issue_id: 5,
        title: "t".to_string(),
        text_content: "text".to_string(),
        html_content: "html".to_string(),
        published_at: 1,
    };
    assert_eq!(store.insert_issue(issue.clone()), Ok(()));
    assert_eq!(store.insert_issue(issue), Err(StoreError::DuplicateIssue));
    assert_eq!(store.enqueue_delivery_tasks(5), Ok(()));
    assert_eq!(
        store.enqueue_delivery_tasks(5),
        Err(StoreError::DuplicateTask)
    );
    assert_eq!(store.queue_len(), 1);
    // Once the task is gone, the same statement goes through again.
    store.delete_task(5, "one@example.com");
    assert_eq!(store.enqueue_delivery_tasks(5), Ok(()));
    assert_eq!(store.queue_len(), 1);
}

#[test]
fn the_worker_paces_itself_by_the_outcome_of_its_turn() {
    assert_eq!(pause_after(&Ok(ExecutionOutcome::TaskCompleted)), 0);
    assert_eq!(pause_after(&Ok(ExecutionOutcome::EmptyQueue)), 10);
    assert_eq!(pause_after(&Err(ExecutionError::TransientError)), 1);
    assert_eq!(pause_after(&Err(ExecutionError::FatalError)), 0);
}

#[test]
fn the_cutoff_is_the_retention_window_before_now() {
    assert_eq!(purge_cutoff(10_000, 10), 9_400);
    assert_eq!(purge_cutoff(600, 10), 0);
    assert_eq!(purge_cutoff(599, 10), 0);
    assert_eq!(purge_cutoff(10_000, 0), 10_000);
    assert_eq!(purge_cutoff(u64::MAX, u64::MAX), 0);
    assert_eq!(purge_cutoff(u64::MAX, 1), u64::MAX - 60);
}

#[test]
fn the_purge_worker_sleeps_half_the_retention_window() {
    assert_eq!(pause_after_purge(true, 10), 300);
    assert_eq!(pause_after_purge(true, 0), 0);
    assert_eq!(pause_after_purge(false, 10), 1);
    assert_eq!(pause_after_purge(false, 0), 1);
}

#[test]
fn a_ledger_row_lives_for_the_retention_window() {
    let retention_minutes = 10;
    let created = 1_000_000;
    let expires = created + retention_minutes * 60;
    let mut store = Store::new();
    create_confirmed_subscriber(&mut store, 1, "one@example.com");
    assert_eq!(
        publish(&mut store, CALLER, &key("K1"), &body(), 100, created),
        Ok(accepted())
    );
    // Every cycle before the window has passed leaves the row in place.
    for now in [0, created, created + 1, expires - 1, expires] {
        assert_eq!(
            purge_expired_idempotencies(&mut store, now, retention_minutes),
            0,
            "at {now}"
        );
        assert_eq!(store.get_saved_response(&key("K1"), CALLER), Some(accepted()));
    }
    // The first cycle after it removes the row.
    assert_eq!(
        purge_expired_idempotencies(&mut store, expires + 1, retention_minutes),
        1
    );
    assert_eq!(store.get_saved_response(&key("K1"), CALLER), None);
    assert_eq!(store.ledger_len(), 0);
    // The issue and its tasks are not the ledger's to remove.
    assert_eq!(store.issue_count(), 1);
    assert_eq!(store.queue_len(), 1);
    // A very late retry is then carried out anew.
    assert_eq!(
        publish(&mut store, CALLER, &key("K1"), &body(), 101, expires + 2),
        Ok(accepted())
    );
    assert_eq!(store.issue_count(), 2);
}

#[test]
fn a_turn_takes_fetches_sends_and_removes() {
    let (turn, action) = begin_turn();
    assert!(matches!(turn, Turn::Taking));
    assert!(matches!(action, TurnAction::Take));

    let (turn, action) = turn_step(turn, TurnEvent::Took(Some(task(100, "one@example.com"))));
    assert!(matches!(action, TurnAction::Fetch { issue_id: 100 }));
    match &turn {
        Turn::Fetching { task: held, recipient } => {
            assert_eq!(held, &task(100, "one@example.com"));
            assert_eq!(recipient.as_ref(), "one@example.com");
        }
        other => panic!("unexpected state: {other:?}"),
    }

    let (turn, action) = turn_step(turn, TurnEvent::Fetched(issue(100)));
    match &action {
        TurnAction::Send { recipient, issue: sent } => {
            assert_eq!(recipient.as_ref(), "one@example.com");
            assert_eq!(sent, &issue(100));
        }
        other => panic!("unexpected action: {other:?}"),
    }
    assert!(matches!(&turn, Turn::Sending { task: held } if held == &task(100, "one@example.com")));

    let (turn, action) = turn_step(turn, TurnEvent::Sent(true));
    assert!(matches!(
        &action,
        TurnAction::Remove { task: gone, attempt: Attempt::Delivered }
            if gone == &task(100, "one@example.com")
    ));
    assert!(matches!(&turn, Turn::Removing { .. }));

    let (turn, action) = turn_step(turn, TurnEvent::Removed);
    assert!(matches!(
        action,
        TurnAction::Finish(ExecutionOutcome::TaskCompleted)
    ));
    assert!(matches!(turn, Turn::Over));
}

#[test]
fn a_failed_sending_removes_the_task_all_the_same() {
    let (turn, _) = begin_turn();
    let (turn, _) = turn_step(turn, TurnEvent::Took(Some(task(100, "two@example.com"))));
    let (turn, _) = turn_step(turn, TurnEvent::Fetched(issue(100)));
    let (turn, action) = turn_step(turn, TurnEvent::Sent(false));
    assert!(matches!(
        &action,
        TurnAction::Remove { task: gone, attempt: Attempt::NotDelivered }
            if gone == &task(100, "two@example.com")
    ));
    let (_, action) = turn_step(turn, TurnEvent::Removed);
    assert!(matches!(
        action,
        TurnAction::Finish(ExecutionOutcome::TaskCompleted)
    ));
}

#[test]
fn a_turn_with_an_invalid_address_goes_straight_to_the_removal() {
    let (turn, _) = begin_turn();
    let (turn, action) = turn_step(turn, TurnEvent::Took(Some(task(100, "no address"))));
    assert!(matches!(
        &action,
        TurnAction::Remove { task: gone, attempt: Attempt::InvalidAddress }
            if gone == &task(100, "no address")
    ));
    assert!(matches!(&turn, Turn::Removing { task: held } if held == &task(100, "no address")));
}

#[test]
fn a_turn_on_an_empty_queue_ends_at_once() {
    let (turn, _) = begin_turn();
    let (turn, action) = turn_step(turn, TurnEvent::Took(None));
    assert!(matches!(
        action,
        TurnAction::Finish(ExecutionOutcome::EmptyQueue)
    ));
    assert!(matches!(turn, Turn::Over));
}

#[test]
fn a_failure_of_the_store_is_transient_at_taking_and_removing() {
    let (turn, _) = begin_turn();
    let (turn, action) = turn_step(turn, TurnEvent::Failed);
    assert!(matches!(
        action,
        TurnAction::GiveUp {
            task: None,
            error: ExecutionError::TransientError
        }
    ));
    assert!(matches!(turn, Turn::Over));

    let (turn, _) = begin_turn();
    let (turn, _) = turn_step(turn, TurnEvent::Took(Some(task(100, "no address"))));
    let (_, action) = turn_step(turn, TurnEvent::Failed);
    match action {
        TurnAction::GiveUp { task: held, error } => {
            assert_eq!(held, Some(task(100, "no address")));
            assert_eq!(error, ExecutionError::TransientError);
        }
        other => panic!("unexpected action: {other:?}"),
    }
}

#[test]
fn any_other_failure_is_fatal_to_the_turn() {
    // The issue cannot be fetched.
    let (turn, _) = begin_turn();
    let (turn, _) = turn_step(turn, TurnEvent::Took(Some(task(100, "one@example.com"))));
    let (turn, action) = turn_step(turn, TurnEvent::Failed);
    match action {
        TurnAction::GiveUp { task: held, error } => {
            assert_eq!(held, Some(task(100, "one@example.com")));
            assert_eq!(error, ExecutionError::FatalError);
        }
        other => panic!("unexpected action: {other:?}"),
    }
    assert!(matches!(turn, Turn::Over));
    // The worker is told something it did not wait for.
    let (turn, _) = begin_turn();
    let (_, action) = turn_step(turn, TurnEvent::Removed);
    assert!(matches!(
        action,
        TurnAction::GiveUp {
            task: None,
            error: ExecutionError::FatalError
        }
    ));
    let (_, action) = turn_step(Turn::Over, TurnEvent::Took(None));
    assert!(matches!(
        action,
        TurnAction::GiveUp {
            task: None,
            error: ExecutionError::FatalError
        }
    ));
}

fn claimed_state() -> Publishing {
    let (state, action) = begin_publishing(CALLER, form("K1"));
    match action {
        PublishAction::Claim { user_id, key } => {
            assert_eq!(user_id, CALLER);
            assert_eq!(key.as_ref(), "K1");
        }
        other => panic!("unexpected action: {other:?}"),
    }
    assert!(matches!(&state, Publishing::Claiming { user_id, key, body: held }
        if *user_id == CALLER && key.as_ref() == "K1" && *held == body()));
    state
}

fn expect_failure(next: (Publishing, PublishAction), status: u16, text: &str) {
    assert!(matches!(next.0, Publishing::Over));
    match next.1 {
        PublishAction::Reply(Err(response)) => {
            assert_eq!(response.status(), status);
            assert_eq!(response.body(), &text.as_bytes().to_vec());
        }
        other => panic!("unexpected action: {other:?}"),
    }
}

#[test]
fn a_request_with_a_free_key_is_carried_out_step_by_step() {
    let state = claimed_state();
    let (state, action) = publish_step_with(
        state,
        PublishEvent::Claimed {
            n_inserted_rows: 1,
            saved: None,
        },
        77,
    );
    match action {
        PublishAction::StoreIssue {
            issue_id,
            title,
            text_content,
            html_content,
        } => {
            assert_eq!(issue_id, 77);
            assert_eq!(title, "Newsletter Title");
            assert_eq!(text_content, "Newsletter body as plain text");
            assert_eq!(html_content, "<p>Newsletter body as HTML</p>");
        }
        other => panic!("unexpected action: {other:?}"),
    }
    assert!(matches!(&state, Publishing::Storing { issue_id: 77, .. }));

    let (state, action) = publish_step_with(state, PublishEvent::Done, 78);
    assert!(matches!(action, PublishAction::QueueTasks { issue_id: 77 }));
    assert!(matches!(&state, Publishing::Queueing { .. }));

    let (state, action) = publish_step_with(state, PublishEvent::Done, 79);
    match action {
        PublishAction::SaveResponse {
            user_id,
            key,
            response,
        } => {
            assert_eq!(user_id, CALLER);
            assert_eq!(key.as_ref(), "K1");
            assert_eq!(response, accepted());
        }
        other => panic!("unexpected action: {other:?}"),
    }
    assert!(matches!(&state, Publishing::Saving { response } if *response == accepted()));

    let (state, action) = publish_step_with(state, PublishEvent::Done, 80);
    assert!(matches!(action, PublishAction::Reply(Ok(response)) if response == accepted()));
    assert!(matches!(state, Publishing::Over));
}

#[test]
fn a_request_with_a_completed_key_is_answered_from_the_ledger() {
    let saved = e500("the first time went wrong, and that is what was saved");
    let (state, action) = publish_step(
        claimed_state(),
        PublishEvent::Claimed {
            n_inserted_rows: 0,
            saved: Some(saved),
        },
    );
    assert!(matches!(state, Publishing::Over));
    assert!(matches!(action, PublishAction::Reply(Ok(response))
        if response == e500("the first time went wrong, and that is what was saved")));
}

#[test]
fn a_request_with_a_key_in_flight_is_answered_with_a_500() {
    let next = publish_step(
        claimed_state(),
        PublishEvent::Claimed {
            n_inserted_rows: 0,
            saved: None,
        },
    );
    expect_failure(next, 500, "We expected a saved response, we didn't find it");
}

#[test]
fn a_request_with_a_bad_key_is_answered_before_anything_is_claimed() {
    let next = begin_publishing(CALLER, form(""));
    expect_failure(next, 400, "The idempotency key cannot be empty");
    let next = begin_publishing(CALLER, form("line\nbreak"));
    expect_failure(next, 400, "The idempotency key must be printable ASCII");
}

#[test]
fn every_failure_of_the_store_ends_the_request_with_a_500() {
    let next = publish_step(claimed_state(), PublishEvent::Failed("pool timed out".to_string()));
    expect_failure(next, 500, "pool timed out");

    let started = || {
        publish_step_with(
            claimed_state(),
            PublishEvent::Claimed {
                n_inserted_rows: 1,
                saved: None,
            },
            5,
        )
        .0
    };
    let next = publish_step(started(), PublishEvent::Failed("duplicate entry".to_string()));
    expect_failure(next, 500, "Failed to store newsletter issue details");

    let queueing = || publish_step(started(), PublishEvent::Done).0;
    let next = publish_step(queueing(), PublishEvent::Failed("lock wait".to_string()));
    expect_failure(next, 500, "Failed to enqueue delivery tasks");

    let saving = || publish_step(queueing(), PublishEvent::Done).0;
    let next = publish_step(saving(), PublishEvent::Failed("connection lost".to_string()));
    expect_failure(next, 500, "connection lost");
}

#[test]
fn a_request_that_is_told_something_out_of_turn_gives_up() {
    let next = publish_step(claimed_state(), PublishEvent::Done);
    expect_failure(next, 500, "The request was told something it did not wait for");
    let next = publish_step(Publishing::Over, PublishEvent::Done);
    expect_failure(next, 500, "The request was told something it did not wait for");
}

#[test]
fn an_issue_that_is_stored_by_one_step_gets_a_fresh_identifier() {
    let draw = || {
        let (_, action) = publish_step(
            claimed_state(),
            PublishEvent::Claimed {
                n_inserted_rows: 1,
                saved: None,
            },
        );
        match action {
            PublishAction::StoreIssue { issue_id, .. } => issue_id,
            other => panic!("unexpected action: {other:?}"),
        }
    };
    assert_ne!(draw(), draw());
}
