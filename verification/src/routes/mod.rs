//! What the service does for each request, over the store.

pub mod admin;
pub mod login;
pub mod newsletters;
pub mod pages;
pub mod subscriptions;
pub mod subscriptions_confirm;

pub use admin::{change_password, check_change_password, PasswordFormData};
pub use login::{log_out, login, login_redirect, LoginError};
pub use newsletters::{
    publish, publish_newsletter, publish_newsletter_as, BodyData, Content, PublishError,
};
pub use subscriptions::{
    confirmation_email_builder, error_chain_fmt, generate_subscription_token, subscribe,
    subscribe_as, ApiError, SendEmailRequestOwned, SubscribeError,
};
pub use subscriptions_confirm::{confirm, Params};
