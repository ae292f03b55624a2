//! Subscribing: the request is validated, the subscription is stored with
//! a token by which it can be confirmed, and the email that carries the
//! token is made ready for sending.

use crate::appstate::ApplicationBaseUrl;
use crate::domain::{email_is_valid, name_defect, NewSubscriber, UserId};
use crate::idempotency::response::status_view;
use crate::idempotency::SavedResponse;
use crate::store::{
    has_email, has_subscriber, has_token, pending_subscriber, with_subscriber, with_token, Store,
    StoreError, StoreView, TokenView,
};
use rand::Rng;
use vstd::prelude::*;
use vstd::string::StringExecFns;

verus! {

/// The fields of the subscription form.
#[derive(Debug)]
pub struct FormData {
    pub email: String,
    pub name: String,
}

/// An email as the delivery service is asked to send it. Every field is
/// optional, as it is in a request that is read back.
#[derive(Debug, PartialEq, Eq)]
pub struct SendEmailRequestOwned {
    pub from: Option<String>,
    pub to: Option<String>,
    pub subject: Option<String>,
    pub text_body: Option<String>,
    pub html_body: Option<String>,
}

/// Why a request to subscribe fails.
#[derive(Debug, PartialEq, Eq)]
pub enum SubscribeError {
    /// The form is at fault; the text says how.
    ValidationError(String),
    /// The store refused the subscription or its token.
    UnexpectedError(StoreError),
}

/// The number of characters of a confirmation token.
pub const TOKEN_LENGTH: usize = 25;

/// The letters of the English alphabet in both cases, and the digits.
pub open spec fn is_alphanumeric(c: char) -> bool {
    'A' <= c <= 'Z' || 'a' <= c <= 'z' || '0' <= c <= '9'
}

/// What holds of every confirmation token that is generated.
pub open spec fn is_token(token: Seq<char>) -> bool {
    &&& token.len() == TOKEN_LENGTH
    &&& forall|i: int| 0 <= i < token.len() ==> is_alphanumeric(#[trigger] token[i])
}

/// One value of the distribution `Alphanumeric` of the `rand` crate, drawn
/// from the thread's generator: a random character that is a letter of the
/// English alphabet or a digit.
#[verifier::external_body]
fn random_alphanumeric() -> (c: char)
    ensures
        is_alphanumeric(c),
{
    char::from(rand::thread_rng().sample(rand::distributions::Alphanumeric))
}

/// `String::push`: the text with one more character at its end.
#[verifier::external_body]
fn push_char(text: &mut String, c: char)
    ensures
        final(text)@ == old(text)@.push(c),
{
    text.push(c)
}

/// A fresh random confirmation token.
pub fn generate_subscription_token() -> (token: String)
    ensures
        is_token(token@),
{
    let mut token = String::new();
    let mut i: usize = 0;
    while i < TOKEN_LENGTH
        invariant
            i <= TOKEN_LENGTH,
            token@.len() == i,
            forall|j: int| 0 <= j < token@.len() ==> is_alphanumeric(#[trigger] token@[j]),
        decreases TOKEN_LENGTH - i,
    {
        push_char(&mut token, random_alphanumeric());
        i += 1;
    }
    token
}

/// The address at which a subscription is confirmed with this token.
pub open spec fn confirmation_link(base_url: Seq<char>, token: Seq<char>) -> Seq<char> {
    base_url + "/subscriptions/confirm?token="@ + token
}

/// The HTML rendering of the confirmation email.
pub open spec fn confirmation_html(link: Seq<char>) -> Seq<char> {
    "Welcome to our newsletter!<br />\n  Click <a href=\""@ + link
        + "\">here</a> to confirm your subscription."@
}

/// The plain rendering of the confirmation email.
pub open spec fn confirmation_text(link: Seq<char>) -> Seq<char> {
    "Welcome to our newsletter!\n  Visit "@ + link + " to confirm your subscription."@
}

/// Whether the email is the confirmation email for this recipient, base
/// address and token.
pub open spec fn is_confirmation_email(
    email: SendEmailRequestOwned,
    recipient: Seq<char>,
    base_url: Seq<char>,
    token: Seq<char>,
) -> bool {
    &&& email.from is None
    &&& email.to matches Some(to) && to@ == recipient
    &&& email.subject matches Some(subject) && subject@ == "Welcome"@
    &&& email.html_body matches Some(html) && html@ == confirmation_html(
        confirmation_link(base_url, token),
    )
    &&& email.text_body matches Some(text) && text@ == confirmation_text(
        confirmation_link(base_url, token),
    )
}

/// Writes the email that asks a new subscriber to confirm: it welcomes the
/// subscriber and carries the link that confirms the subscription, once as
/// HTML and once as plain text.
pub fn confirmation_email_builder(recipient: &str, base_url: &str, token: &str) -> (email:
    SendEmailRequestOwned)
    ensures
        is_confirmation_email(email, recipient@, base_url@, token@),
{
    let mut link = base_url.to_owned();
    link.append("/subscriptions/confirm?token=");
    link.append(token);
    let mut html_content = String::from_str(
        "Welcome to our newsletter!<br />\n  Click <a href=\"",
    );
    html_content.append(link.as_str());
    html_content.append("\">here</a> to confirm your subscription.");
    let mut text_content = String::from_str("Welcome to our newsletter!\n  Visit ");
    text_content.append(link.as_str());
    text_content.append(" to confirm your subscription.");
    SendEmailRequestOwned {
        from: None,
        to: Some(recipient.to_owned()),
        subject: Some(String::from_str("Welcome")),
        html_body: Some(html_content),
        text_body: Some(text_content),
    }
}

/// The store after a subscription and its token have been written.
pub open spec fn subscribed(
    store: StoreView,
    id: u128,
    email: Seq<char>,
    name: Seq<char>,
    token: Seq<char>,
) -> StoreView {
    with_token(
        with_subscriber(store, pending_subscriber(id, email, name)),
        TokenView { token, subscriber_id: id },
    )
}

/// Why the store refuses a subscription with this identifier, address and
/// token, if it does. A clash of the subscription itself is found first.
pub open spec fn subscription_clash(store: StoreView, id: u128, email: Seq<char>, token: Seq<char>) -> Option<
    StoreError,
> {
    if has_subscriber(store.subscribers, id) || has_email(store.subscribers, email) {
        Some(StoreError::DuplicateSubscriber)
    } else if has_token(store.tokens, token) {
        Some(StoreError::DuplicateToken)
    } else {
        None
    }
}

/// Stores a subscription and its confirmation token together: both are
/// written, or neither is.
pub fn store_subscription(
    store: &mut Store,
    subscriber_id: UserId,
    new_subscriber: &NewSubscriber,
    subscription_token: &str,
) -> (stored: Result<(), StoreError>)
    requires
        old(store).wf(),
    ensures
        final(store).wf(),
        match subscription_clash(
            old(store)@,
            subscriber_id@,
            new_subscriber.email@,
            subscription_token@,
        ) {
            Some(clash) => stored == Err::<(), StoreError>(clash) && final(store)@ == old(store)@,
            None => stored is Ok && final(store)@ == subscribed(
                old(store)@,
                subscriber_id@,
                new_subscriber.email@,
                new_subscriber.name@,
                subscription_token@,
            ),
        },
{
    if !store.can_subscribe(subscriber_id, new_subscriber.email.as_ref()) {
        return Err(StoreError::DuplicateSubscriber);
    }
    if store.get_subscriber_id_with_token(subscription_token).is_some() {
        return Err(StoreError::DuplicateToken);
    }
    let ghost before = store@;
    let inserted = store.insert_subscriber_with_id(subscriber_id, new_subscriber);
    assert(inserted is Ok);
    proof {
        let row = pending_subscriber(subscriber_id@, new_subscriber.email@, new_subscriber.name@);
        let subscribers = store@.subscribers;
        assert(subscribers[subscribers.len() - 1].id == subscriber_id@);
        assert(has_subscriber(subscribers, subscriber_id@));
    }
    let stored = store.store_token(subscription_token, subscriber_id);
    assert(stored is Ok);
    Ok(())
}

/// What a request to subscribe leads to, for the identifier and the token
/// that the subscription may get: the new store, and the email to send or
/// the reason of the failure.
pub open spec fn subscribe_outcome(
    store: StoreView,
    base_url: Seq<char>,
    email: Seq<char>,
    name: Seq<char>,
    id: u128,
    token: Seq<char>,
) -> (StoreView, Option<SubscribeFailure>) {
    if name_defect(name) is Some {
        (store, Some(SubscribeFailure::Invalid(name_defect(name)->0)))
    } else if !email_is_valid(email) {
        (store, Some(SubscribeFailure::Invalid(email + " is not a valid subscriber email"@)))
    } else {
        match subscription_clash(store, id, email, token) {
            Some(clash) => (store, Some(SubscribeFailure::Refused(clash))),
            None => (subscribed(store, id, email, name, token), None),
        }
    }
}

/// The mathematical form of a failure to subscribe.
pub enum SubscribeFailure {
    Invalid(Seq<char>),
    Refused(StoreError),
}

/// The mathematical form of a [`SubscribeError`].
pub open spec fn failure_of(error: SubscribeError) -> SubscribeFailure {
    match error {
        SubscribeError::ValidationError(message) => SubscribeFailure::Invalid(message@),
        SubscribeError::UnexpectedError(clash) => SubscribeFailure::Refused(clash),
    }
}

/// Handles a request to subscribe with this identifier and token: see
/// [`subscribe_outcome`]. On success the caller is handed the confirmation
/// email, which it is to send to the new subscriber.
pub fn subscribe_as(
    store: &mut Store,
    base_url: &ApplicationBaseUrl,
    form: FormData,
    subscriber_id: UserId,
    subscription_token: &str,
) -> (done: Result<SendEmailRequestOwned, SubscribeError>)
    requires
        old(store).wf(),
    ensures
        final(store).wf(),
        final(store)@ == subscribe_outcome(
            old(store)@,
            base_url@,
            form.email@,
            form.name@,
            subscriber_id@,
            subscription_token@,
        ).0,
        match done {
            Ok(email) => subscribe_outcome(
                old(store)@,
                base_url@,
                form.email@,
                form.name@,
                subscriber_id@,
                subscription_token@,
            ).1 is None && is_confirmation_email(
                email,
                form.email@,
                base_url@,
                subscription_token@,
            ),
            Err(error) => subscribe_outcome(
                old(store)@,
                base_url@,
                form.email@,
                form.name@,
                subscriber_id@,
                subscription_token@,
            ).1 == Some(failure_of(error)),
        },
{
    let FormData { email, name } = form;
    let new_subscriber = match NewSubscriber::parse(name, email) {
        Ok(new_subscriber) => new_subscriber,
        Err(message) => {
            return Err(SubscribeError::ValidationError(message));
        },
    };
    match store_subscription(store, subscriber_id, &new_subscriber, subscription_token) {
        Ok(()) => {},
        Err(clash) => {
            return Err(SubscribeError::UnexpectedError(clash));
        },
    }
    Ok(
        confirmation_email_builder(
            new_subscriber.email.as_ref(),
            base_url.as_str(),
            subscription_token,
        ),
    )
}

/// Handles a request to subscribe. The subscription gets a fresh random
/// identifier and a fresh random token; what happens for the two that were
/// drawn is what [`subscribe_outcome`] says.
pub fn subscribe(store: &mut Store, base_url: &ApplicationBaseUrl, form: FormData) -> (done: Result<
    SendEmailRequestOwned,
    SubscribeError,
>)
    requires
        old(store).wf(),
    ensures
        final(store).wf(),
        exists|id: u128, token: Seq<char>|
            is_token(token) && final(store)@ == (#[trigger] subscribe_outcome(
                old(store)@,
                base_url@,
                form.email@,
                form.name@,
                id,
                token,
            )).0 && match done {
                Ok(email) => subscribe_outcome(
                    old(store)@,
                    base_url@,
                    form.email@,
                    form.name@,
                    id,
                    token,
                ).1 is None && is_confirmation_email(email, form.email@, base_url@, token),
                Err(error) => subscribe_outcome(
                    old(store)@,
                    base_url@,
                    form.email@,
                    form.name@,
                    id,
                    token,
                ).1 == Some(failure_of(error)),
            },
{
    let subscriber_id = UserId::new_v4();
    let subscription_token = generate_subscription_token();
    subscribe_as(store, base_url, form, subscriber_id, subscription_token.as_str())
}

impl SubscribeError {
    /// The status that the client gets: 400 for a form that is at fault,
    /// 500 otherwise.
    pub fn status_code(&self) -> (status: u16)
        ensures
            status == match *self {
                SubscribeError::ValidationError(_) => 400u16,
                SubscribeError::UnexpectedError(_) => 500u16,
            },
    {
        match self {
            SubscribeError::ValidationError(_) => 400,
            SubscribeError::UnexpectedError(_) => 500,
        }
    }

    /// The response that the client gets: the status and nothing else.
    pub fn into_response(self) -> (response: SavedResponse)
        ensures
            response@ == status_view(
                match self {
                    SubscribeError::ValidationError(_) => 400u16,
                    SubscribeError::UnexpectedError(_) => 500u16,
                },
            ),
    {
        SavedResponse::status_only(self.status_code()).unwrap()
    }
}

/// What a client is told whose form could not be read.
#[derive(Debug, PartialEq, Eq)]
pub struct ApiError {
    pub status: u16,
    pub message: String,
}

impl ApiError {
    /// The error for a form that was refused with this status and text. A
    /// form that could be read but not understood, status 422, is reported
    /// as not found; every other status is kept.
    pub fn from_rejection(status: u16, body_text: String) -> (error: Self)
        ensures
            error.status == (if status == 422 {
                404u16
            } else {
                status
            }),
            error.message == body_text,
    {
        ApiError { status: if status == 422 { 404 } else { status }, message: body_text }
    }
}

/// Writes an error and what caused it, one cause after the other: the
/// error's own message and an empty line, then for each cause a line
/// `Caused by:` and the indented message of the cause.
pub open spec fn error_chain(message: Seq<char>, causes: Seq<Seq<char>>) -> Seq<char>
    decreases causes.len(),
{
    if causes.len() == 0 {
        message + "\n\n"@
    } else {
        error_chain(message, causes.drop_last()) + "Caused by:\n\t"@ + causes.last() + "\n"@
    }
}

/// The text of an error with the chain of its causes: see [`error_chain`].
pub fn error_chain_fmt(message: &str, causes: &Vec<String>) -> (text: String)
    ensures
        text@ == error_chain(message@, Seq::new(causes@.len(), |i: int| causes@[i]@)),
{
    let ghost all = Seq::new(causes@.len(), |i: int| causes@[i]@);
    let mut text = message.to_owned();
    text.append("\n\n");
    let mut i: usize = 0;
    assert(all.take(0) =~= Seq::<Seq<char>>::empty());
    while i < causes.len()
        invariant
            i <= causes@.len(),
            all == Seq::new(causes@.len(), |i: int| causes@[i]@),
            text@ == error_chain(message@, all.take(i as int)),
        decreases causes@.len() - i,
    {
        proof {
            let done = all.take(i + 1);
            assert(done.drop_last() =~= all.take(i as int));
            assert(done.last() == causes@[i as int]@);
        }
        text.append("Caused by:\n\t");
        text.append(causes[i].as_str());
        text.append("\n");
        i += 1;
    }
    assert(all.take(i as int) =~= all);
    text
}

} // verus!
