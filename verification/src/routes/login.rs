//! Logging in: what the user is told and where the user is sent.

use crate::authentication::AuthError;
use crate::domain::UserId;
use crate::idempotency::response::status_view;
use crate::idempotency::SavedResponse;
use crate::utils::{redirect_view, see_other};
use vstd::prelude::*;
use vstd::string::StringExecFns;

verus! {

/// Why a login fails.
#[derive(Debug, PartialEq, Eq)]
pub enum LoginError {
    /// The credentials are wrong; the text says what is wrong with them.
    AuthError(String),
    /// The credentials could not be checked; the text says why.
    UnexpectedError(String),
}

impl From<AuthError> for LoginError {
    fn from(value: AuthError) -> (error: LoginError) {
        match value {
            AuthError::InvalidCredentials(e) => LoginError::AuthError(e),
            AuthError::UnexpectedError(e) => LoginError::UnexpectedError(e),
        }
    }
}

impl vstd::std_specs::convert::FromSpecImpl<AuthError> for LoginError {
    open spec fn obeys_from_spec() -> bool {
        true
    }

    open spec fn from_spec(value: AuthError) -> LoginError {
        login_error_of(value)
    }
}

/// The login error that a failed check of credentials becomes: it keeps the
/// kind and the text.
pub open spec fn login_error_of(value: AuthError) -> LoginError {
    match value {
        AuthError::InvalidCredentials(e) => LoginError::AuthError(e),
        AuthError::UnexpectedError(e) => LoginError::UnexpectedError(e),
    }
}

impl LoginError {
    /// What the user is shown: that the authentication failed, or the
    /// reason of a failure that is not the user's.
    pub open spec fn message_view(self) -> Seq<char> {
        match self {
            LoginError::AuthError(_) => "Authentication failed"@,
            LoginError::UnexpectedError(reason) => reason@,
        }
    }

    /// What the user is shown: see [`LoginError::message_view`].
    pub fn message(&self) -> (text: String)
        ensures
            text@ == self.message_view(),
    {
        match self {
            LoginError::AuthError(_) => String::from_str("Authentication failed"),
            LoginError::UnexpectedError(reason) => reason.clone(),
        }
    }

    /// The status of the error as a response of its own: 401 for wrong
    /// credentials, 500 otherwise.
    pub fn status_code(&self) -> (status: u16)
        ensures
            status == match *self {
                LoginError::AuthError(_) => 401u16,
                LoginError::UnexpectedError(_) => 500u16,
            },
    {
        match self {
            LoginError::AuthError(_) => 401,
            LoginError::UnexpectedError(_) => 500,
        }
    }

    /// The error as a response of its own: the status and nothing else.
    pub fn into_response(self) -> (response: SavedResponse)
        ensures
            response@ == status_view(
                match self {
                    LoginError::AuthError(_) => 401u16,
                    LoginError::UnexpectedError(_) => 500u16,
                },
            ),
    {
        SavedResponse::status_only(self.status_code()).unwrap()
    }
}

/// Where a user goes after a login that failed, and what the user is shown
/// there: back to the login form, with the error's message.
pub fn login_redirect(error: LoginError) -> (sent: (String, SavedResponse))
    ensures
        sent.0@ == error.message_view(),
        sent.1@ == redirect_view("/login"@),
{
    (error.message(), see_other("/login"))
}

/// Where a user goes after logging out, and what the user is shown there.
pub fn log_out() -> (sent: (String, SavedResponse))
    ensures
        sent.0@ == "You have successfully logged out."@,
        sent.1@ == redirect_view("/login"@),
{
    (String::from_str("You have successfully logged out."), see_other("/login"))
}

/// Decides how a login ends, from what checking the credentials gave: the
/// user is sent to the dashboard and is to be remembered under the
/// identifier that comes back, or is sent back to the form with a message.
pub fn login(checked: Result<UserId, AuthError>) -> (done: Result<
    (UserId, SavedResponse),
    (String, SavedResponse),
>)
    ensures
        match checked {
            Ok(user_id) => done matches Ok(sent) && sent.0 == user_id && sent.1@ == redirect_view(
                "/admin/dashboard"@,
            ),
            Err(error) => done matches Err(sent) && sent.0@ == login_error_of(
                error,
            ).message_view() && sent.1@ == redirect_view("/login"@),
        },
{
    match checked {
        Ok(user_id) => Ok((user_id, see_other("/admin/dashboard"))),
        Err(error) => Err(login_redirect(LoginError::from(error))),
    }
}

} // verus!
