//! The settings that tell one deployment from another.

use vstd::prelude::*;
use vstd::string::StringExecFns;

verus! {

/// A text with every letter in its lower case, as `str::to_lowercase` gives
/// it.
pub uninterp spec fn lowercase(text: Seq<char>) -> Seq<char>;

/// `str::to_lowercase`: the result depends on the text alone and is what
/// `lowercase` names.
#[verifier::external_body]
fn to_lowercase(text: &str) -> (lower: String)
    ensures
        lower@ == lowercase(text@),
{
    text.to_lowercase()
}

/// Where the application runs.
#[derive(Debug, Clone, Copy, PartialEq, Eq, Structural)]
pub enum Environment {
    Development,
    Production,
}

/// The name of the environment.
pub open spec fn environment_name(environment: Environment) -> Seq<char> {
    match environment {
        Environment::Development => "development"@,
        Environment::Production => "production"@,
    }
}

/// What is said of a text that names no environment.
pub open spec fn unknown_environment(name: Seq<char>) -> Seq<char> {
    name + " is not a valid environment. Use either `development` or `production`."@
}

impl Environment {
    /// The name of the environment: `development` or `production`.
    pub fn as_str(&self) -> (name: &'static str)
        ensures
            name@ == environment_name(*self),
    {
        match self {
            Environment::Development => "development",
            Environment::Production => "production",
        }
    }

    /// Reads an environment from its name, in whatever case the name is
    /// written. Any other text is refused with a message that quotes it in
    /// lower case.
    pub fn try_from(value: String) -> (read: Result<Self, String>)
        ensures
            match read {
                Ok(environment) => lowercase(value@) == environment_name(environment),
                Err(message) => lowercase(value@) != "development"@ && lowercase(value@)
                    != "production"@ && message@ == unknown_environment(lowercase(value@)),
            },
    {
        let lower = to_lowercase(value.as_str());
        if lower == String::from_str("development") {
            Ok(Environment::Development)
        } else if lower == String::from_str("production") {
            Ok(Environment::Production)
        } else {
            Err(
                lower.concat(
                    " is not a valid environment. Use either `development` or `production`.",
                ),
            )
        }
    }
}

} // verus!
