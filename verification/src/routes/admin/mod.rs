//! What a logged-in user can do.

pub mod password;

pub use password::FormData as PasswordFormData;
pub use password::{change_password, check_change_password};
