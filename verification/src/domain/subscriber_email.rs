//! A subscriber's address, accepted only where it reads as an email address.

use validator::ValidateEmail;
use vstd::prelude::*;
use vstd::string::StringExecFns;

verus! {

/// Whether a text reads as an email address by the rules of HTML5 form
/// fields, as the `validator` crate decides it.
pub uninterp spec fn email_is_valid(text: Seq<char>) -> bool;

/// `ValidateEmail::validate_email` of the `validator` crate: the answer
/// depends on the text alone and is what `email_is_valid` names.
#[verifier::external_body]
fn validate_email(text: &str) -> (valid: bool)
    ensures
        valid == email_is_valid(text@),
{
    ValidateEmail::validate_email(&text)
}

/// An email address that has passed validation.
#[derive(Debug)]
pub struct SubscriberEmail(String);

impl View for SubscriberEmail {
    type V = Seq<char>;

    closed spec fn view(&self) -> Seq<char> {
        self.0@
    }
}

impl SubscriberEmail {
    #[verifier::type_invariant]
    spec fn well_formed(self) -> bool {
        email_is_valid(self.0@)
    }

    /// Accepts `s` where it is a valid address; otherwise says that it is not.
    pub fn parse(s: String) -> (parsed: Result<Self, String>)
        ensures
            match parsed {
                Ok(email) => email_is_valid(s@) && email@ == s@,
                Err(message) => !email_is_valid(s@) && message@ == s@
                    + " is not a valid subscriber email"@,
            },
    {
        if validate_email(s.as_str()) {
            Ok(SubscriberEmail(s))
        } else {
            Err(s.concat(" is not a valid subscriber email"))
        }
    }

    /// The address as text.
    pub fn as_ref(&self) -> (text: &str)
        ensures
            text@ == self@,
            email_is_valid(text@),
    {
        proof {
            use_type_invariant(self);
        }
        self.0.as_str()
    }
}

} // verus!
