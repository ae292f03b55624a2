//! The values a subscription is made of, each checked where it enters.

mod new_subscriber;
mod subscriber_email;
pub mod subscriber_id;
mod subscriber_name;

pub use new_subscriber::NewSubscriber;
pub use subscriber_email::{email_is_valid, SubscriberEmail};
pub use subscriber_id::UserId;
pub use subscriber_name::{
    grapheme_count, has_forbidden, is_forbidden, name_defect, trimmed, SubscriberName,
};
