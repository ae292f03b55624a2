use base64::Engine;
use zero2prod::appstate::ApplicationBaseUrl;
use zero2prod::authentication::{
    basic_authentication, check_new_password, compute_password_hash, reject_anonymous_user,
    validate_credentials, AuthError, BasicAuthError, Credentials, PasswordRejection,
};
use zero2prod::configuration::Environment;
use zero2prod::domain::UserId;
use zero2prod::idempotency::{HeaderPairRecord, Headers, IdempotencyKey};
use zero2prod::routes::pages;
use zero2prod::routes::subscriptions::FormData;
use zero2prod::routes::{
    change_password, check_change_password, confirm, confirmation_email_builder,
    error_chain_fmt, generate_subscription_token, log_out, login, login_redirect, subscribe,
    subscribe_as,
    ApiError, LoginError, Params, PasswordFormData, SendEmailRequestOwned, SubscribeError,
};
use zero2prod::store::{Store, StoreError};
use zero2prod::utils::{e400, e500, report_exit, see_other, Data, TaskExit};

fn basic(credentials: &str) -> Vec<u8> {
    let mut header = b"Basic ".to_vec();
    header.extend_from_slice(
        base64::prelude::BASE64_STANDARD
            .encode(credentials)
            .as_bytes(),
    );
    header
}

fn subscription_form(name: &str, email: &str) -> FormData {
    FormData {
        email: email.to_string(),
        name: name.to_string(),
    }
}

fn base_url() -> ApplicationBaseUrl {
    ApplicationBaseUrl("http://127.0.0.1:8000".to_string())
}

#[test]
fn the_confirmation_email_carries_the_link_twice() {
    let email = confirmation_email_builder("ursula@domain.com", "https://my-api.com", "mytoken");
    assert_eq!(
        email,
        SendEmailRequestOwned {
            from: None,
            to: Some("ursula@domain.com".to_string()),
            subject: Some("Welcome".to_string()),
            text_body: Some(
                "Welcome to our newsletter!\n  Visit https://my-api.com/subscriptions/confirm?token=mytoken to confirm your subscription."
                    .to_string()
            ),
            html_body: Some(
                "Welcome to our newsletter!<br />\n  Click <a href=\"https://my-api.com/subscriptions/confirm?token=mytoken\">here</a> to confirm your subscription."
                    .to_string()
            ),
        }
    );
}

#[test]
fn a_token_is_25_letters_and_digits() {
    let one = generate_subscription_token();
    let other = generate_subscription_token();
    for token in [&one, &other] {
        assert_eq!(token.chars().count(), 25);
        assert!(token.chars().all(|c| c.is_ascii_alphanumeric()));
    }
    assert_ne!(one, other);
}

#[test]
fn subscribing_stores_a_pending_subscription_and_its_token() {
    let mut store = Store::new();
    let email = subscribe_as(
        &mut store,
        &base_url(),
        subscription_form("le guin", "ursula_le_guin@gmail.com"),
        UserId(1),
        "token-one",
    )
    .unwrap();
    assert_eq!(
        email,
        confirmation_email_builder("ursula_le_guin@gmail.com", "http://127.0.0.1:8000", "token-one")
    );
    assert_eq!(
        store.get_subscriber_id_with_token("token-one"),
        Some(UserId(1))
    );
    assert_eq!(store.confirmed_subscribers(), Vec::<String>::new());
    assert!(!store.can_subscribe(UserId(1), "other@gmail.com"));
    assert!(!store.can_subscribe(UserId(2), "ursula_le_guin@gmail.com"));
    assert!(store.can_subscribe(UserId(2), "other@gmail.com"));
}

#[test]
fn subscribing_with_invalid_fields_is_a_validation_error() {
    let mut store = Store::new();
    let cases = [
        ("", "ursula_le_guin@gmail.com", "Name is empty."),
        ("Ursula", "", " is not a valid subscriber email"),
        (
            "Ursula",
            "definitely-not-an-email",
            "definitely-not-an-email is not a valid subscriber email",
        ),
        ("Ursula<", "ursula@gmail.com", "Name contains forbidden characters."),
    ];
    for (name, email, message) in cases {
        let error = subscribe(&mut store, &base_url(), subscription_form(name, email)).unwrap_err();
        assert_eq!(error, SubscribeError::ValidationError(message.to_string()));
        assert_eq!(error.status_code(), 400);
        assert_eq!(error.into_response().status(), 400);
    }
    assert!(store.can_subscribe(UserId(1), "ursula_le_guin@gmail.com"));
}

#[test]
fn subscribing_twice_with_one_address_is_refused() {
    let mut store = Store::new();
    subscribe(&mut store, &base_url(), subscription_form("a", "a@example.com")).unwrap();
    let error =
        subscribe(&mut store, &base_url(), subscription_form("b", "a@example.com")).unwrap_err();
    assert_eq!(
        error,
        SubscribeError::UnexpectedError(StoreError::DuplicateSubscriber)
    );
    assert_eq!(error.status_code(), 500);
    assert_eq!(error.into_response().status(), 500);
}

#[test]
fn a_subscription_and_its_token_are_stored_together_or_not_at_all() {
    let mut store = Store::new();
    subscribe_as(
        &mut store,
        &base_url(),
        subscription_form("a", "a@example.com"),
        UserId(1),
        "taken",
    )
    .unwrap();
    let error = subscribe_as(
        &mut store,
        &base_url(),
        subscription_form("b", "b@example.com"),
        UserId(2),
        "taken",
    )
    .unwrap_err();
    assert_eq!(
        error,
        SubscribeError::UnexpectedError(StoreError::DuplicateToken)
    );
    assert!(store.can_subscribe(UserId(2), "b@example.com"));
    // A clash of the subscription is found before a clash of the token.
    let error = subscribe_as(
        &mut store,
        &base_url(),
        subscription_form("c", "a@example.com"),
        UserId(3),
        "taken",
    )
    .unwrap_err();
    assert_eq!(
        error,
        SubscribeError::UnexpectedError(StoreError::DuplicateSubscriber)
    );
}

#[test]
fn a_token_is_stored_for_a_known_subscriber_only() {
    let mut store = Store::new();
    assert_eq!(
        store.store_token("t", UserId(1)),
        Err(StoreError::UnknownSubscriber)
    );
    subscribe_as(
        &mut store,
        &base_url(),
        subscription_form("a", "a@example.com"),
        UserId(1),
        "t",
    )
    .unwrap();
    assert_eq!(
        store.store_token("t", UserId(1)),
        Err(StoreError::DuplicateToken)
    );
    assert_eq!(store.store_token("t2", UserId(1)), Ok(()));
    assert_eq!(store.get_subscriber_id_with_token("t2"), Some(UserId(1)));
    assert_eq!(store.get_subscriber_id_with_token("t3"), None);
}

#[test]
fn the_link_returned_by_subscribe_confirms_the_subscription() {
    let mut store = Store::new();
    let email = subscribe(
        &mut store,
        &base_url(),
        subscription_form("le guin", "ursula_le_guin@gmail.com"),
    )
    .unwrap();
    let text = email.text_body.unwrap();
    let start = text.find("token=").unwrap() + "token=".len();
    let token: String = text[start..].chars().take(25).collect();
    assert_eq!(
        confirm(&mut store, &Params { token }),
        200
    );
    assert_eq!(
        store.confirmed_subscribers(),
        vec!["ursula_le_guin@gmail.com".to_string()]
    );
}

#[test]
fn confirmations_with_an_unknown_token_are_rejected_with_a_401() {
    let mut store = Store::new();
    subscribe_as(
        &mut store,
        &base_url(),
        subscription_form("a", "a@example.com"),
        UserId(1),
        "right",
    )
    .unwrap();
    assert_eq!(
        confirm(
            &mut store,
            &Params {
                token: "wrong".to_string()
            }
        ),
        401
    );
    assert_eq!(store.confirmed_subscribers(), Vec::<String>::new());
}

#[test]
fn an_error_is_written_with_the_chain_of_its_causes() {
    assert_eq!(error_chain_fmt("it failed", &Vec::new()), "it failed\n\n");
    assert_eq!(
        error_chain_fmt(
            "Failed to store the confirmation token for a new subscriber.",
            &vec![
                "A database error was encountered".to_string(),
                "connection reset".to_string()
            ]
        ),
        "Failed to store the confirmation token for a new subscriber.\n\nCaused by:\n\tA database error was encountered\nCaused by:\n\tconnection reset\n"
    );
}

#[test]
fn helper_responses_have_their_status_and_text() {
    let response = e500("boom");
    assert_eq!(response.status(), 500);
    assert_eq!(response.body(), &b"boom".to_vec());
    let response = e400("bad");
    assert_eq!(response.status(), 400);
    assert_eq!(response.body(), &b"bad".to_vec());
    let response = see_other("/login");
    assert_eq!(response.status(), 303);
    assert_eq!(
        response.headers(),
        &Headers::new(vec![HeaderPairRecord::new("location", b"/login")])
    );
    let response = see_other("/not\na\nheader");
    assert_eq!(response.status(), 500);
    assert_eq!(response.body(), &b"failed to parse header value".to_vec());
}

#[test]
fn an_environment_is_read_from_its_name_in_any_case() {
    assert_eq!(Environment::Development.as_str(), "development");
    assert_eq!(Environment::Production.as_str(), "production");
    assert_eq!(
        Environment::try_from("development".to_string()),
        Ok(Environment::Development)
    );
    assert_eq!(
        Environment::try_from("PRODUCTION".to_string()),
        Ok(Environment::Production)
    );
    assert_eq!(
        Environment::try_from("Staging".to_string()),
        Err("staging is not a valid environment. Use either `development` or `production`.".to_string())
    );
}

#[test]
fn the_base_url_is_plain_text() {
    assert_eq!(base_url().as_str(), "http://127.0.0.1:8000");
    assert_eq!(base_url().clone().as_str(), "http://127.0.0.1:8000");
}

#[test]
fn shared_data_is_one_value_behind_many_handles() {
    let data = Data::new(vec![1, 2, 3]);
    let other = data.clone();
    assert_eq!(data.get_ref(), &vec![1, 2, 3]);
    assert!(std::ptr::eq(data.get_ref(), other.get_ref()));
    let handle = other.into_inner();
    assert_eq!(std::sync::Arc::strong_count(&handle), 2);
    let again = Data::from_arc(handle);
    assert_eq!(again.get_ref(), &vec![1, 2, 3]);
}

#[test]
fn basic_credentials_are_a_name_a_colon_and_a_password() {
    let credentials = basic_authentication(Some(&basic("ursula:secret"))).unwrap();
    assert_eq!(credentials.username, "ursula");
    assert_eq!(credentials.password, "secret");
    let credentials = basic_authentication(Some(&basic("ursula:se:cr:et"))).unwrap();
    assert_eq!(credentials.username, "ursula");
    assert_eq!(credentials.password, "se:cr:et");
    let credentials = basic_authentication(Some(&basic(":"))).unwrap();
    assert_eq!(credentials.username, "");
    assert_eq!(credentials.password, "");
    let credentials = basic_authentication(Some(&basic("\u{fc}rsula:p\u{e4}ss"))).unwrap();
    assert_eq!(credentials.username, "\u{fc}rsula");
    assert_eq!(credentials.password, "p\u{e4}ss");
}

#[test]
fn requests_missing_authorization_are_rejected() {
    assert_eq!(
        basic_authentication(None).unwrap_err(),
        BasicAuthError::MissingHeader
    );
    assert_eq!(
        BasicAuthError::MissingHeader.message(),
        "The Authorization header is missing"
    );
}

#[test]
fn each_defect_of_basic_credentials_is_told_apart() {
    let cases: Vec<(Vec<u8>, BasicAuthError)> = vec![
        (b"Basic \xff".to_vec(), BasicAuthError::NotText),
        (b"Bearer abc".to_vec(), BasicAuthError::WrongScheme),
        (b"Basic".to_vec(), BasicAuthError::WrongScheme),
        (b"basic dXJzdWxhOnNlY3JldA==".to_vec(), BasicAuthError::WrongScheme),
        (b"Basic not base64!".to_vec(), BasicAuthError::NotBase64),
        (b"Basic dXJzdWxhOnNlY3JldA".to_vec(), BasicAuthError::NotBase64),
        (b"Basic /w==".to_vec(), BasicAuthError::NotUtf8),
        (basic("ursula"), BasicAuthError::MissingPassword),
        (b"Basic ".to_vec(), BasicAuthError::MissingPassword),
    ];
    for (header, expected) in cases {
        assert_eq!(
            basic_authentication(Some(&header)).unwrap_err(),
            expected,
            "{:?}",
            String::from_utf8_lossy(&header)
        );
    }
    assert_eq!(
        BasicAuthError::WrongScheme.message(),
        "The Authorization schema is not 'Base64'"
    );
}

#[test]
fn a_password_is_checked_against_its_hash() {
    let hash = compute_password_hash("everythinghastostartsomewhere").unwrap();
    assert!(hash.starts_with("$argon2id$"));
    let right = Credentials {
        username: "admin".to_string(),
        password: "everythinghastostartsomewhere".to_string(),
    };
    let wrong = Credentials {
        username: "admin".to_string(),
        password: "everythinghastostartsomewher".to_string(),
    };
    assert_eq!(
        validate_credentials(Some((UserId(9), hash.clone())), &right),
        Ok(UserId(9))
    );
    assert_eq!(
        validate_credentials(Some((UserId(9), hash)), &wrong),
        Err(AuthError::InvalidCredentials("Invalid password".to_string()))
    );
    assert_eq!(
        validate_credentials(None, &right),
        Err(AuthError::InvalidCredentials("Unknow username".to_string()))
    );
    assert_eq!(
        validate_credentials(Some((UserId(9), "not a hash".to_string())), &right),
        Err(AuthError::UnexpectedError(
            "Failed to parse hash in PHC string format".to_string()
        ))
    );
}

#[test]
fn new_password_fields_must_match() {
    assert_eq!(
        check_new_password(&"a-long-enough-password".to_string(), &"another-password".to_string()),
        Err(PasswordRejection::Mismatch)
    );
    assert_eq!(
        PasswordRejection::Mismatch.message(),
        "You entered two different new passwords - the field values must match."
    );
}

#[test]
fn new_password_should_be_longer_than_12_chars() {
    assert_eq!(
        check_new_password(&"a".repeat(12), &"a".repeat(12)),
        Err(PasswordRejection::TooShort)
    );
    assert_eq!(check_new_password(&"a".repeat(13), &"a".repeat(13)), Ok(()));
    assert_eq!(
        PasswordRejection::TooShort.message(),
        "The new password is too short."
    );
}

#[test]
fn new_password_should_be_shorter_than_128_chars() {
    assert_eq!(
        check_new_password(&"a".repeat(128), &"a".repeat(128)),
        Err(PasswordRejection::TooLong)
    );
    assert_eq!(check_new_password(&"a".repeat(127), &"a".repeat(127)), Ok(()));
    // The length is counted in bytes: 64 two-byte characters are too long.
    assert_eq!(
        check_new_password(&"\u{e9}".repeat(64), &"\u{e9}".repeat(64)),
        Err(PasswordRejection::TooLong)
    );
    assert_eq!(
        PasswordRejection::TooLong.message(),
        "The new password is too long."
    );
}

#[test]
fn a_refused_new_password_sends_the_user_back_to_the_form() {
    let form = PasswordFormData {
        current_password: "current".to_string(),
        new_password: "short".to_string(),
        new_password_check: "short".to_string(),
    };
    let (flash, response) = check_change_password(&form).unwrap_err();
    assert_eq!(flash, "The new password is too short.");
    assert_eq!(response, see_other("/admin/password"));
    let form = PasswordFormData {
        current_password: "current".to_string(),
        new_password: "a-long-enough-password".to_string(),
        new_password_check: "a-long-enough-password".to_string(),
    };
    assert_eq!(check_change_password(&form), Ok(()));
}

#[test]
fn current_password_must_be_valid() {
    let done = change_password(Err(AuthError::InvalidCredentials(
        "Invalid password".to_string(),
    )));
    assert_eq!(
        done,
        Ok((
            None,
            "The current password is incorrect.".to_string(),
            see_other("/admin/password")
        ))
    );
    let done = change_password(Ok(UserId(3)));
    assert_eq!(
        done,
        Ok((
            Some(UserId(3)),
            "Your password has been changed.".to_string(),
            see_other("/admin/password")
        ))
    );
    let done = change_password(Err(AuthError::UnexpectedError("no store".to_string())));
    assert_eq!(done, Err(e500("no store")));
}

#[test]
fn an_error_flash_message_is_set_on_failure() {
    let done = login(Err(AuthError::InvalidCredentials(
        "Unknow username".to_string(),
    )));
    assert_eq!(
        done,
        Err(("Authentication failed".to_string(), see_other("/login")))
    );
    let done = login(Err(AuthError::UnexpectedError("no store".to_string())));
    assert_eq!(done, Err(("no store".to_string(), see_other("/login"))));
}

#[test]
fn redirect_to_admin_dashboard_after_login_success() {
    assert_eq!(
        login(Ok(UserId(5))),
        Ok((UserId(5), see_other("/admin/dashboard")))
    );
}

#[test]
fn a_login_error_keeps_the_kind_of_the_auth_error() {
    let error = LoginError::from(AuthError::InvalidCredentials("x".to_string()));
    assert_eq!(error, LoginError::AuthError("x".to_string()));
    assert_eq!(error.status_code(), 401);
    assert_eq!(error.message(), "Authentication failed");
    let (flash, response) = login_redirect(error);
    assert_eq!(flash, "Authentication failed");
    assert_eq!(response.status(), 303);
    let error = LoginError::from(AuthError::UnexpectedError("y".to_string()));
    assert_eq!(error, LoginError::UnexpectedError("y".to_string()));
    assert_eq!(error.status_code(), 500);
    assert_eq!(error.message(), "y");
    assert_eq!(error.into_response().status(), 500);
}

#[test]
fn you_must_be_logged_in_to_access_the_admin_dashboard() {
    assert_eq!(reject_anonymous_user(Some(UserId(4))), Ok(UserId(4)));
    assert_eq!(
        reject_anonymous_user(None),
        Err((
            "The user has not logged in.".to_string(),
            see_other("/login")
        ))
    );
}

#[test]
fn the_end_of_a_task_is_reported_by_its_kind() {
    assert_eq!(
        report_exit("application worker", TaskExit::Exited),
        (false, "application worker has exited".to_string())
    );
    assert_eq!(
        report_exit("issue delivery worker", TaskExit::Failed),
        (true, "issue delivery worker failed".to_string())
    );
    assert_eq!(
        report_exit("idempotency purge worker", TaskExit::Aborted),
        (
            true,
            "idempotency purge worker's task failed to complete".to_string()
        )
    );
}

#[test]
fn subscribe_returns_a_404_when_data_is_missing() {
    let error = ApiError::from_rejection(422, "missing field `email`".to_string());
    assert_eq!(
        error,
        ApiError {
            status: 404,
            message: "missing field `email`".to_string()
        }
    );
    assert_eq!(ApiError::from_rejection(415, String::new()).status, 415);
    assert_eq!(ApiError::from_rejection(400, String::new()).status, 400);
}

#[test]
fn confirmed_subscribers_are_listed_with_what_is_wrong_with_their_address() {
    let mut store = Store::new();
    subscribe_as(
        &mut store,
        &base_url(),
        subscription_form("a", "a@example.com"),
        UserId(1),
        "t1",
    )
    .unwrap();
    store.confirm_subscriber(UserId(1));
    store
        .restore_subscriber(UserId(2), "nonsense".to_string(), "b".to_string(), true)
        .unwrap();
    store
        .restore_subscriber(UserId(3), "c@example.com".to_string(), "c".to_string(), false)
        .unwrap();
    assert_eq!(
        store.restore_subscriber(UserId(4), "nonsense".to_string(), "d".to_string(), true),
        Err(StoreError::DuplicateSubscriber)
    );
    assert_eq!(
        store.restore_subscriber(UserId(1), "e@example.com".to_string(), "e".to_string(), true),
        Err(StoreError::DuplicateSubscriber)
    );
    let found = store.get_confirmed_subscribers();
    assert_eq!(found.len(), 2);
    assert_eq!(found[0].as_ref().unwrap().as_ref(), "a@example.com");
    assert_eq!(
        found[1].as_ref().unwrap_err(),
        "nonsense is not a valid subscriber email"
    );
}

#[test]
fn pages_show_their_messages_in_italics() {
    let none: Vec<String> = Vec::new();
    let two = vec!["Authentication failed".to_string(), "Try again".to_string()];
    assert_eq!(pages::messages_html(&none), "");
    assert_eq!(
        pages::messages_html(&two),
        "<p><i>Authentication failed</i></p>\n<p><i>Try again</i></p>\n"
    );
    let page = pages::login_form(&two);
    assert!(page.starts_with("<!doctype html>"));
    assert!(page.contains("<p><i>Authentication failed</i></p>\n<p><i>Try again</i></p>\n"));
    assert!(page.contains(r#"<form action="/login" method="post">"#));
    assert_eq!(
        page,
        format!(
            "{}{}{}",
            pages::LOGIN_PAGE_HEAD,
            pages::messages_html(&two),
            pages::LOGIN_PAGE_TAIL
        )
    );
    let page = pages::change_password_form(&none);
    assert!(page.contains(r#"<form action="/admin/password" method="post">"#));
    assert!(page.contains(r#"name="new_password_check""#));
    assert_eq!(
        page,
        format!("{}{}", pages::PASSWORD_PAGE_HEAD, pages::PASSWORD_PAGE_TAIL)
    );
}

#[test]
fn the_dashboard_greets_the_user() {
    let page = pages::admin_dashboard("ursula");
    assert!(page.contains("<p>Welcome ursula!</p>"));
    assert!(page.contains(r#"<a href="/admin/newsletters">Send a newsletter issue</a>"#));
}

#[test]
fn the_form_for_an_issue_carries_a_fresh_key_that_is_valid() {
    let none: Vec<String> = Vec::new();
    let page = pages::publish_newsletter_form(&none);
    let other = pages::publish_newsletter_form(&none);
    assert_ne!(page, other);
    let marker = r#"name="idempotency_key" value=""#;
    let start = page.find(marker).unwrap() + marker.len();
    let key: String = page[start..].chars().take_while(|c| *c != '"').collect();
    assert_eq!(key.len(), 36);
    assert!(IdempotencyKey::parse(key.clone()).is_ok());
    assert_eq!(
        page,
        pages::publish_newsletter_form_with(&none, &key)
    );
    assert!(page.contains(r#"<textarea name="html_content""#));
}

#[test]
fn not_found_has_its_text() {
    assert_eq!(pages::NOT_FOUND_TEXT, "404: Page Not Found");
}

#[test]
fn logout_clears_session_state() {
    assert_eq!(
        log_out(),
        (
            "You have successfully logged out.".to_string(),
            see_other("/login")
        )
    );
}

#[test]
fn every_hash_that_is_made_accepts_its_own_password_and_no_other() {
    for password in ["", "hunter42", "p\u{e4}ssw\u{f6}rd \u{1f511}", &"x".repeat(300)] {
        let hash = compute_password_hash(password).unwrap();
        let own = Credentials {
            username: "admin".to_string(),
            password: password.to_string(),
        };
        let other = Credentials {
            username: "admin".to_string(),
            password: format!("{password}!"),
        };
        assert_eq!(
            validate_credentials(Some((UserId(1), hash.clone())), &own),
            Ok(UserId(1)),
            "{password:?}"
        );
        assert_eq!(
            validate_credentials(Some((UserId(1), hash)), &other),
            Err(AuthError::InvalidCredentials("Invalid password".to_string())),
            "{password:?}"
        );
    }
    // Two hashes of one password differ, for the salt is drawn anew.
    assert_ne!(
        compute_password_hash("hunter42").unwrap(),
        compute_password_hash("hunter42").unwrap()
    );
}
