//! Publishing an issue: the issue and one delivery task for each confirmed
//! subscriber are written together with the response that a retry of the
//! request will get, or nothing is written at all.

use crate::domain::subscriber_id::random_uuid;
use crate::domain::UserId;
use crate::idempotency::key::key_defect;
use crate::idempotency::persistence::{
    claimed_row, completed_row, has_row, next_action, row_matches, row_of, unclaimed,
    LedgerRowView, NextAction,
};
use crate::idempotency::response::{
    lemma_printable_is_header_text, see_other_view, text_view, ResponseView,
};
use crate::idempotency::{IdempotencyKey, InvalidKey, SavedResponse};
use crate::sequences::lemma_filter_one_out;
use crate::utils::e500;
use crate::store::{
    audience, consistent, has_issue, lemma_fresh_issue, lemma_issue_keeps_consistent,
    lemma_tasks_keep_consistent, tasks_for, with_issue, with_tasks, IssueView, NewsletterIssue,
    Store, StoreView,
};
use vstd::prelude::*;

verus! {

/// The two renderings of an issue.
#[derive(Debug, PartialEq, Eq)]
pub struct Content {
    pub html: String,
    pub text: String,
}

/// What an issue is made of.
#[derive(Debug, PartialEq, Eq)]
pub struct BodyData {
    pub title: String,
    pub content: Content,
}

/// The fields of the form by which an issue is published.
#[derive(Debug, PartialEq, Eq)]
pub struct FormData {
    pub title: String,
    pub html_content: String,
    pub text_content: String,
    pub idempotency_key: String,
}

/// Why a request to publish gets no issue out.
#[derive(Debug, Clone, Copy, PartialEq, Eq)]
pub enum PublishError {
    /// The idempotency key is no key. Nothing has reached the store.
    ValidationError(InvalidKey),
    /// The key is claimed, and the request that claimed it has saved no
    /// response.
    ResponseMissing,
    /// The store holds an issue with the new issue's identifier. Nothing
    /// was written.
    DuplicateIssue,
}

/// The response to a request that was accepted: a redirect to the list of
/// issues.
pub open spec fn accepted() -> ResponseView {
    see_other_view("/admin/newsletters"@)
}

/// The issue that a request stores.
pub open spec fn new_issue(issue_id: u128, body: BodyData, now: u64) -> IssueView {
    IssueView {
        issue_id,
        title: body.title@,
        text_content: body.content.text@,
        html_content: body.content.html@,
        published_at: now,
    }
}

/// The store after a request has been carried out for the first time: the
/// ledger has the request's row with the response in it, the issue is
/// stored, and the queue has one task for each subscriber who was confirmed
/// at that moment.
pub open spec fn published(store: StoreView, caller_id: u128, key: Seq<char>, issue: IssueView) -> StoreView {
    StoreView {
        ledger: store.ledger.push(
            completed_row(claimed_row(caller_id, key, issue.published_at), accepted()),
        ),
        issues: store.issues.push(issue),
        queue: store.queue + tasks_for(issue.issue_id, audience(store.subscribers)),
        ..store
    }
}

/// The store after a request to publish, and the outcome of the request.
///
/// A request whose key the caller has used before changes nothing: it gets
/// the saved response, or an error where none has been saved. Otherwise a
/// request whose issue identifier is taken changes nothing and fails. Every
/// other request is carried out.
pub open spec fn publish_outcome(
    store: StoreView,
    caller_id: u128,
    key: Seq<char>,
    issue: IssueView,
) -> (StoreView, Result<ResponseView, PublishError>) {
    if has_row(store.ledger, caller_id, key) {
        match row_of(store.ledger, caller_id, key).response {
            Some(response) => (store, Ok(response)),
            None => (store, Err(PublishError::ResponseMissing)),
        }
    } else if has_issue(store.issues, issue.issue_id) {
        (store, Err(PublishError::DuplicateIssue))
    } else {
        (published(store, caller_id, key, issue), Ok(accepted()))
    }
}

/// The outcome of a request in its mathematical form.
pub open spec fn outcome_view(outcome: Result<SavedResponse, PublishError>) -> Result<
    ResponseView,
    PublishError,
> {
    match outcome {
        Ok(response) => Ok(response@),
        Err(e) => Err(e),
    }
}

/// The target of the redirect can be a header value.
pub proof fn lemma_accepted_target()
    ensures
        crate::idempotency::response::header_value_is_valid(
            vstd::utf8::encode_utf8("/admin/newsletters"@),
        ),
{
    reveal_strlit("/admin/newsletters");
    let text = "/admin/newsletters"@;
    assert(crate::idempotency::key::all_printable(text));
    lemma_printable_is_header_text(text);
}

/// A request that is carried out leaves the tables consistent.
pub proof fn lemma_published_keeps_consistent(
    store: StoreView,
    caller_id: u128,
    key: Seq<char>,
    issue: IssueView,
)
    requires
        consistent(store),
        !has_row(store.ledger, caller_id, key),
        !has_issue(store.issues, issue.issue_id),
    ensures
        consistent(published(store, caller_id, key, issue)),
{
    let done = published(store, caller_id, key, issue);
    let ledger = done.ledger;
    assert forall|i: int, j: int|
        #![trigger ledger[i], ledger[j]]
        0 <= i < ledger.len() && 0 <= j < ledger.len() && i != j implies !row_matches(
        ledger[j],
        ledger[i].caller_id,
        ledger[i].key,
    ) by {
        let n = store.ledger.len() as int;
        if i < n && j < n {
            assert(!row_matches(store.ledger[j], store.ledger[i].caller_id, store.ledger[i].key));
        } else if i < n {
            assert(!row_matches(store.ledger[i], caller_id, key));
        } else {
            assert(!row_matches(store.ledger[j], caller_id, key));
        }
    }
    let stored = with_issue(store, issue);
    lemma_issue_keeps_consistent(store, issue);
    lemma_fresh_issue(store, issue.issue_id);
    lemma_tasks_keep_consistent(stored, issue.issue_id);
    let queued = with_tasks(stored, issue.issue_id);
    assert(done.queue == queued.queue);
    assert(done.issues == queued.issues);
}

/// Carries out a request to publish an issue, once: see
/// [`publish_outcome`].
///
/// The key is claimed first. Where the caller has used it before, the saved
/// response is handed back and nothing else happens. Otherwise the issue is
/// stored, one task is queued for each subscriber who is confirmed at this
/// moment, and the response is saved under the key. Where the issue cannot
/// be stored, the claim is taken back, so that a retry starts afresh.
pub fn publish(
    store: &mut Store,
    caller_id: UserId,
    key: &IdempotencyKey,
    body: &BodyData,
    issue_id: u128,
    now: u64,
) -> (outcome: Result<SavedResponse, PublishError>)
    requires
        old(store).wf(),
    ensures
        final(store).wf(),
        (final(store)@, outcome_view(outcome)) == publish_outcome(
            old(store)@,
            caller_id@,
            key@,
            new_issue(issue_id, *body, now),
        ),
{
    let ghost before = store@;
    let ghost issue_view = new_issue(issue_id, *body, now);
    match store.try_processing(key, caller_id, now) {
        Err(_) => {
            return Err(PublishError::ResponseMissing);
        },
        Ok(NextAction::ReturnSavedResponse(saved)) => {
            return Ok(saved);
        },
        Ok(NextAction::StartProcessing) => {},
    }
    let ghost claimed = store@;
    let issue = NewsletterIssue {
        issue_id,
        title: body.title.clone(),
        text_content: body.content.text.clone(),
        html_content: body.content.html.clone(),
        published_at: now,
    };
    assert(issue@ == issue_view);
    if store.insert_issue(issue).is_err() {
        store.release_claim(key, caller_id);
        proof {
            lemma_claim_released(before, caller_id@, key@, now);
        }
        return Err(PublishError::DuplicateIssue);
    }
    proof {
        lemma_fresh_issue(claimed, issue_id);
        assert(has_issue(store@.issues, issue_id)) by {
            assert(store@.issues[store@.issues.len() - 1].issue_id == issue_id);
        }
    }
    let queued = store.enqueue_delivery_tasks(issue_id);
    assert(queued is Ok);
    proof {
        lemma_accepted_target();
    }
    let response = SavedResponse::see_other("/admin/newsletters").unwrap();
    store.save_response(key, caller_id, response.clone());
    proof {
        let after = published(before, caller_id@, key@, issue_view);
        assert(store@.ledger =~= after.ledger) by {
            assert forall|i: int| 0 <= i < before.ledger.len() implies store@.ledger[i]
                == before.ledger[i] by {
                assert(!row_matches(before.ledger[i], caller_id@, key@));
            }
        }
    }
    Ok(response)
}

/// The response to a request that failed, as the client gets it.
pub open spec fn failure_view(error: PublishError) -> ResponseView {
    match error {
        PublishError::ValidationError(reason) => text_view(400, reason.message_view()),
        PublishError::ResponseMissing => text_view(
            500,
            "We expected a saved response, we didn't find it"@,
        ),
        PublishError::DuplicateIssue => text_view(
            500,
            "Failed to store newsletter issue details"@,
        ),
    }
}

impl PublishError {
    /// The response by which the client learns of the failure: status 400
    /// for a request that is at fault, 500 otherwise, and a line of text.
    pub fn into_response(self) -> (response: SavedResponse)
        ensures
            response@ == failure_view(self),
    {
        let made = match self {
            PublishError::ValidationError(reason) => SavedResponse::text(
                400,
                reason.message().as_str(),
            ),
            PublishError::ResponseMissing => SavedResponse::text(
                500,
                "We expected a saved response, we didn't find it",
            ),
            PublishError::DuplicateIssue => SavedResponse::text(
                500,
                "Failed to store newsletter issue details",
            ),
        };
        made.unwrap()
    }
}

/// What the request of the form does to the store and gives back, for each
/// identifier that the new issue may get.
pub open spec fn form_outcome(
    store: StoreView,
    caller_id: u128,
    form: FormData,
    issue_id: u128,
    now: u64,
) -> (StoreView, Result<ResponseView, ResponseView>) {
    match key_defect(form.idempotency_key@) {
        Some(reason) => (store, Err(failure_view(PublishError::ValidationError(reason)))),
        None => {
            let issue = IssueView {
                issue_id,
                title: form.title@,
                text_content: form.text_content@,
                html_content: form.html_content@,
                published_at: now,
            };
            let (after, outcome) = publish_outcome(store, caller_id, form.idempotency_key@, issue);
            match outcome {
                Ok(response) => (after, Ok(response)),
                Err(e) => (after, Err(failure_view(e))),
            }
        },
    }
}

/// The two sides of a handler's result in their mathematical form.
pub open spec fn reply_view(reply: Result<SavedResponse, SavedResponse>) -> Result<
    ResponseView,
    ResponseView,
> {
    match reply {
        Ok(response) => Ok(response@),
        Err(response) => Err(response@),
    }
}

/// Where the handling of a request to publish stands.
#[derive(Debug)]
pub enum Publishing {
    /// The key is being claimed.
    Claiming { user_id: UserId, key: IdempotencyKey, body: BodyData },
    /// The issue is being stored.
    Storing { user_id: UserId, key: IdempotencyKey, issue_id: u128 },
    /// The delivery tasks are being queued.
    Queueing { user_id: UserId, key: IdempotencyKey },
    /// The response is being saved.
    Saving { response: SavedResponse },
    /// The request has been answered.
    Over,
}

/// What the handling of a request is told of the thing it asked for.
#[derive(Debug)]
pub enum PublishEvent {
    /// The store has tried to write the ledger row of the key: how many
    /// rows it wrote, and the response that it then found saved for the key
    /// where it wrote none.
    Claimed { n_inserted_rows: u64, saved: Option<SavedResponse> },
    /// The store has done what was asked of it.
    Done,
    /// The store could not do what was asked of it; the text says why.
    Failed(String),
}

/// What the handling of a request asks for next. Everything that is asked
/// of the store between `Claim` and `SaveResponse` belongs to one
/// transaction, which `SaveResponse` commits.
#[derive(Debug)]
pub enum PublishAction {
    /// Write the ledger row of the key unless there is one, and read the
    /// saved response where there is.
    Claim { user_id: UserId, key: IdempotencyKey },
    /// Store the issue.
    StoreIssue { issue_id: u128, title: String, text_content: String, html_content: String },
    /// Queue one delivery task for each subscriber who is confirmed now.
    QueueTasks { issue_id: u128 },
    /// Write the response into the ledger row of the key, and commit.
    SaveResponse { user_id: UserId, key: IdempotencyKey, response: SavedResponse },
    /// Answer the request: with the response of a request that was
    /// accepted, now or before, or with the response of a failure. After a
    /// failure nothing that was written for the request is kept.
    Reply(Result<SavedResponse, SavedResponse>),
}

/// What a client is told whose request was told something it did not wait
/// for.
pub open spec fn out_of_turn() -> Seq<char> {
    "The request was told something it did not wait for"@
}

/// Whether the action answers the request with this failure.
pub open spec fn replies_failure(action: PublishAction, failure: ResponseView) -> bool {
    action matches PublishAction::Reply(Err(response)) && response@ == failure
}

/// Begins the handling of a request to publish. A form whose key is no key
/// is answered at once, with status 400; for every other form the key is
/// to be claimed.
pub fn begin_publishing(user_id: UserId, form: FormData) -> (begun: (Publishing, PublishAction))
    ensures
        match key_defect(form.idempotency_key@) {
            Some(reason) => begun.0 is Over && replies_failure(
                begun.1,
                failure_view(PublishError::ValidationError(reason)),
            ),
            None => {
                &&& begun.0 matches Publishing::Claiming { user_id: caller, key, body }
                &&& caller == user_id
                &&& key@ == form.idempotency_key@
                &&& body.title == form.title
                &&& body.content.html == form.html_content
                &&& body.content.text == form.text_content
                &&& begun.1 matches PublishAction::Claim { user_id: claimant, key: claimed }
                &&& claimant == user_id
                &&& claimed@ == form.idempotency_key@
            },
        },
{
    let FormData { title, html_content, text_content, idempotency_key } = form;
    match IdempotencyKey::parse(idempotency_key) {
        Err(reason) => (
            Publishing::Over,
            PublishAction::Reply(Err(PublishError::ValidationError(reason).into_response())),
        ),
        Ok(key) => {
            let body = BodyData {
                title,
                content: Content { html: html_content, text: text_content },
            };
            let claimed = key.clone();
            (
                Publishing::Claiming { user_id, key, body },
                PublishAction::Claim { user_id, key: claimed },
            )
        },
    }
}

/// Decides what is done next for a request to publish, from where its
/// handling stands and what it has been told. `issue_id` is the identifier
/// that the issue gets if it is stored now.
///
/// - A key that was free: the issue is stored, the tasks are queued, the
///   response is made and saved, and the request is answered with it.
/// - A key with a saved response: the request is answered with that
///   response, and nothing is asked of the store.
/// - A key that is claimed without a response, and every failure of the
///   store: the request is answered with status 500.
pub fn publish_step_with(state: Publishing, event: PublishEvent, issue_id: u128) -> (next: (
    Publishing,
    PublishAction,
))
    ensures
        match (state, event) {
            (
                Publishing::Claiming { user_id, key, body },
                PublishEvent::Claimed { n_inserted_rows, saved },
            ) => if n_inserted_rows > 0 {
                &&& next.0 matches Publishing::Storing { user_id: caller, key: held, issue_id: id }
                &&& caller == user_id
                &&& held@ == key@
                &&& id == issue_id
                &&& next.1 == (PublishAction::StoreIssue {
                    issue_id,
                    title: body.title,
                    text_content: body.content.text,
                    html_content: body.content.html,
                })
            } else {
                match saved {
                    Some(response) => next.0 is Over && next.1 == PublishAction::Reply(
                        Ok(response),
                    ),
                    None => next.0 is Over && replies_failure(
                        next.1,
                        failure_view(PublishError::ResponseMissing),
                    ),
                }
            },
            (Publishing::Claiming { .. }, PublishEvent::Failed(reason)) => next.0 is Over
                && replies_failure(next.1, text_view(500, reason@)),
            (Publishing::Storing { user_id, key, issue_id: stored }, PublishEvent::Done) => {
                &&& next.0 matches Publishing::Queueing { user_id: caller, key: held }
                &&& caller == user_id
                &&& held@ == key@
                &&& next.1 == (PublishAction::QueueTasks { issue_id: stored })
            },
            (Publishing::Storing { .. }, PublishEvent::Failed(_)) => next.0 is Over
                && replies_failure(next.1, failure_view(PublishError::DuplicateIssue)),
            (Publishing::Queueing { user_id, key }, PublishEvent::Done) => {
                &&& next.0 matches Publishing::Saving { response: held }
                &&& held@ == accepted()
                &&& next.1 matches PublishAction::SaveResponse {
                    user_id: caller,
                    key: claimed,
                    response,
                }
                &&& caller == user_id
                &&& claimed@ == key@
                &&& response@ == accepted()
            },
            (Publishing::Queueing { .. }, PublishEvent::Failed(_)) => next.0 is Over
                && replies_failure(next.1, text_view(500, "Failed to enqueue delivery tasks"@)),
            (Publishing::Saving { response }, PublishEvent::Done) => next.0 is Over && next.1
                == PublishAction::Reply(Ok(response)),
            (Publishing::Saving { .. }, PublishEvent::Failed(reason)) => next.0 is Over
                && replies_failure(next.1, text_view(500, reason@)),
            _ => next.0 is Over && replies_failure(next.1, text_view(500, out_of_turn())),
        },
{
    match (state, event) {
        (
            Publishing::Claiming { user_id, key, body },
            PublishEvent::Claimed { n_inserted_rows, saved },
        ) => {
            match next_action(n_inserted_rows, saved) {
                Ok(NextAction::StartProcessing) => {
                    let BodyData { title, content } = body;
                    let Content { html, text } = content;
                    (
                        Publishing::Storing { user_id, key, issue_id },
                        PublishAction::StoreIssue {
                            issue_id,
                            title,
                            text_content: text,
                            html_content: html,
                        },
                    )
                },
                Ok(NextAction::ReturnSavedResponse(response)) => (
                    Publishing::Over,
                    PublishAction::Reply(Ok(response)),
                ),
                Err(_) => (
                    Publishing::Over,
                    PublishAction::Reply(Err(PublishError::ResponseMissing.into_response())),
                ),
            }
        },
        (Publishing::Claiming { .. }, PublishEvent::Failed(reason)) => (
            Publishing::Over,
            PublishAction::Reply(Err(e500(reason.as_str()))),
        ),
        (Publishing::Storing { user_id, key, issue_id: stored }, PublishEvent::Done) => (
            Publishing::Queueing { user_id, key },
            PublishAction::QueueTasks { issue_id: stored },
        ),
        (Publishing::Storing { .. }, PublishEvent::Failed(_)) => (
            Publishing::Over,
            PublishAction::Reply(Err(PublishError::DuplicateIssue.into_response())),
        ),
        (Publishing::Queueing { user_id, key }, PublishEvent::Done) => {
            proof {
                lemma_accepted_target();
            }
            let response = SavedResponse::see_other("/admin/newsletters").unwrap();
            (
                Publishing::Saving { response: response.clone() },
                PublishAction::SaveResponse { user_id, key, response },
            )
        },
        (Publishing::Queueing { .. }, PublishEvent::Failed(_)) => (
            Publishing::Over,
            PublishAction::Reply(Err(e500("Failed to enqueue delivery tasks"))),
        ),
        (Publishing::Saving { response }, PublishEvent::Done) => (
            Publishing::Over,
            PublishAction::Reply(Ok(response)),
        ),
        (Publishing::Saving { .. }, PublishEvent::Failed(reason)) => (
            Publishing::Over,
            PublishAction::Reply(Err(e500(reason.as_str()))),
        ),
        (Publishing::Claiming { .. }, _) => (
            Publishing::Over,
            PublishAction::Reply(Err(e500("The request was told something it did not wait for"))),
        ),
        (Publishing::Storing { .. }, _) => (
            Publishing::Over,
            PublishAction::Reply(Err(e500("The request was told something it did not wait for"))),
        ),
        (Publishing::Queueing { .. }, _) => (
            Publishing::Over,
            PublishAction::Reply(Err(e500("The request was told something it did not wait for"))),
        ),
        (Publishing::Saving { .. }, _) => (
            Publishing::Over,
            PublishAction::Reply(Err(e500("The request was told something it did not wait for"))),
        ),
        (Publishing::Over, _) => (
            Publishing::Over,
            PublishAction::Reply(Err(e500("The request was told something it did not wait for"))),
        ),
    }
}

/// Decides what is done next for a request to publish: see
/// [`publish_step_with`]. An issue that is stored now gets a fresh random
/// identifier.
pub fn publish_step(state: Publishing, event: PublishEvent) -> (next: (Publishing, PublishAction))
    ensures
        exists|issue_id: u128| #[trigger]
            call_ensures(publish_step_with, (state, event, issue_id), next),
{
    let issue_id = random_uuid();
    publish_step_with(state, event, issue_id)
}

/// Handles the form by which an issue is published on the store in memory,
/// at the time `now` and with `issue_id` as the identifier of the issue: see
/// [`form_outcome`]. A form whose key is no key is answered with status 400
/// and never reaches the store.
pub fn publish_newsletter_as(
    store: &mut Store,
    user_id: UserId,
    form: FormData,
    issue_id: u128,
    now: u64,
) -> (reply: Result<SavedResponse, SavedResponse>)
    requires
        old(store).wf(),
    ensures
        final(store).wf(),
        (final(store)@, reply_view(reply)) == form_outcome(
            old(store)@,
            user_id@,
            form,
            issue_id,
            now,
        ),
{
    let ghost before = store@;
    let ghost key_view = form.idempotency_key@;
    let ghost issue_view = IssueView {
        issue_id,
        title: form.title@,
        text_content: form.text_content@,
        html_content: form.html_content@,
        published_at: now,
    };
    let (state, action) = begin_publishing(user_id, form);
    let (state, action) = match action {
        PublishAction::Claim { user_id, key } => {
            let event = match store.try_processing(&key, user_id, now) {
                Ok(NextAction::StartProcessing) => PublishEvent::Claimed {
                    n_inserted_rows: 1,
                    saved: None,
                },
                Ok(NextAction::ReturnSavedResponse(saved)) => PublishEvent::Claimed {
                    n_inserted_rows: 0,
                    saved: Some(saved),
                },
                Err(_) => PublishEvent::Claimed { n_inserted_rows: 0, saved: None },
            };
            publish_step_with(state, event, issue_id)
        },
        other => (state, other),
    };
    let ghost claimed = store@;
    let (state, action) = match action {
        PublishAction::StoreIssue { issue_id, title, text_content, html_content } => {
            let issue = NewsletterIssue {
                issue_id,
                title,
                text_content,
                html_content,
                published_at: now,
            };
            assert(issue@ == issue_view);
            let event = match store.insert_issue(issue) {
                Ok(()) => PublishEvent::Done,
                Err(_) => {
                    match &state {
                        Publishing::Storing { user_id, key, issue_id: _ } => {
                            store.release_claim(key, *user_id);
                        },
                        _ => {},
                    }
                    proof {
                        lemma_claim_released(before, user_id@, key_view, now);
                    }
                    PublishEvent::Failed(String::new())
                },
            };
            publish_step_with(state, event, issue_id)
        },
        other => (state, other),
    };
    let (state, action) = match action {
        PublishAction::QueueTasks { issue_id } => {
            proof {
                lemma_fresh_issue(claimed, issue_id);
                assert(has_issue(store@.issues, issue_id)) by {
                    assert(store@.issues[store@.issues.len() - 1].issue_id == issue_id);
                }
            }
            let queued = store.enqueue_delivery_tasks(issue_id);
            assert(queued is Ok);
            publish_step_with(state, PublishEvent::Done, issue_id)
        },
        other => (state, other),
    };
    let (_, action) = match action {
        PublishAction::SaveResponse { user_id, key, response } => {
            store.save_response(&key, user_id, response);
            proof {
                let after = published(before, user_id@, key_view, issue_view);
                assert(store@.ledger =~= after.ledger) by {
                    assert forall|i: int| 0 <= i < before.ledger.len() implies store@.ledger[i]
                        == before.ledger[i] by {
                        assert(!row_matches(before.ledger[i], user_id@, key_view));
                    }
                }
            }
            publish_step_with(state, PublishEvent::Done, issue_id)
        },
        other => (state, other),
    };
    match action {
        PublishAction::Reply(reply) => reply,
        _ => Err(e500("The request was told something it did not wait for")),
    }
}

/// A claim that is taken back leaves the ledger as it was before the claim.
pub proof fn lemma_claim_released(store: StoreView, caller_id: u128, key: Seq<char>, now: u64)
    requires
        !has_row(store.ledger, caller_id, key),
    ensures
        unclaimed(store.ledger.push(claimed_row(caller_id, key, now)), caller_id, key)
            == store.ledger,
{
    let claimed = store.ledger.push(claimed_row(caller_id, key, now));
    let keep = |row: LedgerRowView| !(row_matches(row, caller_id, key) && row.response is None);
    assert forall|i: int| 0 <= i < claimed.len() && i != store.ledger.len() implies keep(
        #[trigger] claimed[i],
    ) by {
        assert(claimed[i] == store.ledger[i]);
        assert(!row_matches(store.ledger[i], caller_id, key));
    }
    lemma_filter_one_out(claimed, keep, store.ledger.len() as int);
    assert(claimed.remove(store.ledger.len() as int) =~= store.ledger);
}

/// Handles the form by which an issue is published. The issue gets a fresh
/// random identifier; what happens for the identifier that was drawn is
/// what [`form_outcome`] says.
pub fn publish_newsletter(store: &mut Store, user_id: UserId, form: FormData, now: u64) -> (reply:
    Result<SavedResponse, SavedResponse>)
    requires
        old(store).wf(),
    ensures
        final(store).wf(),
        exists|issue_id: u128|
            (final(store)@, reply_view(reply)) == #[trigger] form_outcome(
                old(store)@,
                user_id@,
                form,
                issue_id,
                now,
            ),
{
    let issue_id = random_uuid();
    publish_newsletter_as(store, user_id, form, issue_id, now)
}

} // verus!
