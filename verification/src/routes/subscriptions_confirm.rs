//! Confirming a subscription with the token that was sent to the
//! subscriber.

use crate::store::{has_token, token_owner, with_confirmation, Store};
use vstd::prelude::*;

verus! {

/// The parameters of the confirmation link.
#[derive(Debug)]
pub struct Params {
    pub token: String,
}

/// The status for a confirmed subscription.
pub const CONFIRMED: u16 = 200;

/// The status for a token that nobody has been sent.
pub const UNAUTHORIZED: u16 = 401;

/// Confirms the subscription that the token was stored for, and says with
/// which status the request ends: 200 where the token is known, and 401,
/// with nothing changed, where it is not.
pub fn confirm(store: &mut Store, params: &Params) -> (status: u16)
    requires
        old(store).wf(),
    ensures
        final(store).wf(),
        if has_token(old(store)@.tokens, params.token@) {
            status == CONFIRMED && final(store)@ == with_confirmation(
                old(store)@,
                token_owner(old(store)@.tokens, params.token@),
            )
        } else {
            status == UNAUTHORIZED && final(store)@ == old(store)@
        },
{
    match store.get_subscriber_id_with_token(params.token.as_str()) {
        Some(subscriber_id) => {
            store.confirm_subscriber(subscriber_id);
            CONFIRMED
        },
        None => UNAUTHORIZED,
    }
}

} // verus!
