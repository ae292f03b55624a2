//! What every handler of the application is given.

use vstd::prelude::*;

verus! {

/// The address under which the application is reached from outside.
#[derive(Debug)]
pub struct ApplicationBaseUrl(pub String);

impl View for ApplicationBaseUrl {
    type V = Seq<char>;

    open spec fn view(&self) -> Seq<char> {
        self.0@
    }
}

impl ApplicationBaseUrl {
    /// The address as text.
    pub fn as_str(&self) -> (text: &str)
        ensures
            text@ == self@,
    {
        self.0.as_str()
    }
}

impl Clone for ApplicationBaseUrl {
    fn clone(&self) -> (copy: Self)
        ensures
            copy@ == self@,
    {
        ApplicationBaseUrl(self.0.clone())
    }
}

} // verus!
