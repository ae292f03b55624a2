//! A subscription request whose fields have both passed validation.

use super::subscriber_email::{email_is_valid, SubscriberEmail};
use super::subscriber_name::{name_defect, SubscriberName};
use vstd::prelude::*;
use vstd::string::StringExecFns;

verus! {

/// Somebody who asked to subscribe.
#[derive(Debug)]
pub struct NewSubscriber {
    pub email: SubscriberEmail,
    pub name: SubscriberName,
}

impl NewSubscriber {
    /// Validates the two fields of a subscription form, the name first. The
    /// first field that fails gives the error.
    pub fn parse(name: String, email: String) -> (parsed: Result<Self, String>)
        ensures
            match parsed {
                Ok(subscriber) => name_defect(name@) is None && email_is_valid(email@)
                    && subscriber.name@ == name@ && subscriber.email@ == email@,
                Err(message) => if name_defect(name@) is Some {
                    name_defect(name@) == Some(message@)
                } else {
                    !email_is_valid(email@) && message@ == email@
                        + " is not a valid subscriber email"@
                },
            },
    {
        let name = match SubscriberName::parse(name) {
            Ok(name) => name,
            Err(message) => { return Err(message); },
        };
        let email = match SubscriberEmail::parse(email) {
            Ok(email) => email,
            Err(message) => { return Err(message); },
        };
        Ok(NewSubscriber { email, name })
    }

    /// One line that names both fields, for logs.
    pub fn to_text(&self) -> (text: String)
        ensures
            text@ == "subscriber_email: "@ + self.email@ + ", subscriber_name: "@ + self.name@,
    {
        let mut text = String::from_str("subscriber_email: ");
        text.append(self.email.as_ref());
        text.append(", subscriber_name: ");
        text.append(self.name.as_ref());
        text
    }
}

} // verus!
