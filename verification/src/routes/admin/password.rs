//! Changing the password: what the user is shown and where the user is
//! sent.

use crate::authentication::{
    check_new_password, password_defect, AuthError, };
use crate::domain::UserId;
use crate::idempotency::response::text_view;
use crate::idempotency::SavedResponse;
use crate::utils::{e500, redirect_view, see_other};
use vstd::prelude::*;
use vstd::string::StringExecFns;

verus! {

/// The fields of the form by which a password is changed.
#[derive(Debug)]
pub struct FormData {
    pub current_password: String,
    pub new_password: String,
    pub new_password_check: String,
}

/// Looks at the new password before anything is asked of the store. A
/// password that cannot be taken sends the user back to the form with the
/// reason.
pub fn check_change_password(form: &FormData) -> (checked: Result<(), (String, SavedResponse)>)
    ensures
        match checked {
            Ok(()) => password_defect(form.new_password@, form.new_password_check@) is None,
            Err(sent) => password_defect(form.new_password@, form.new_password_check@) matches Some(
                reason,
            ) && sent.0@ == reason.message_view() && sent.1@ == redirect_view("/admin/password"@),
        },
{
    match check_new_password(&form.new_password, &form.new_password_check) {
        Ok(()) => Ok(()),
        Err(reason) => Err((reason.message(), see_other("/admin/password"))),
    }
}

/// Decides how a change of password ends, from what checking the current
/// password gave. Where the password was right, the user whose password is
/// to be replaced comes back with what the user is shown; where it was
/// wrong, only what the user is shown. Either way the user is sent back to
/// the form. A check that could not be made ends the request with status
/// 500 and the reason.
pub fn change_password(checked: Result<UserId, AuthError>) -> (done: Result<
    (Option<UserId>, String, SavedResponse),
    SavedResponse,
>)
    ensures
        match checked {
            Ok(user_id) => done matches Ok(sent) && sent.0 == Some(user_id) && sent.1@
                == "Your password has been changed."@ && sent.2@ == redirect_view(
                "/admin/password"@,
            ),
            Err(AuthError::InvalidCredentials(_)) => done matches Ok(sent) && sent.0 is None
                && sent.1@ == "The current password is incorrect."@ && sent.2@ == redirect_view(
                "/admin/password"@,
            ),
            Err(AuthError::UnexpectedError(reason)) => done matches Err(response) && response@
                == text_view(500, reason@),
        },
{
    match checked {
        Ok(user_id) => Ok(
            (
                Some(user_id),
                String::from_str("Your password has been changed."),
                see_other("/admin/password"),
            ),
        ),
        Err(AuthError::InvalidCredentials(_)) => Ok(
            (
                None,
                String::from_str("The current password is incorrect."),
                see_other("/admin/password"),
            ),
        ),
        Err(AuthError::UnexpectedError(reason)) => Err(e500(reason.as_str())),
    }
}

} // verus!
