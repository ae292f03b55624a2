//! The token by which a client marks the retries of one request.

use vstd::prelude::*;
use vstd::string::{StrSliceExecFns, StringExecFns};

verus! {

/// A key has fewer characters than this.
pub const MAX_KEY_LENGTH: usize = 50;

/// Why a text is refused as an idempotency key.
#[derive(Debug, Clone, Copy, PartialEq, Eq, Structural)]
pub enum InvalidKey {
    /// The text has no characters.
    Empty,
    /// The text has `MAX_KEY_LENGTH` characters or more.
    TooLong,
    /// A character is not printable ASCII.
    NotPrintable,
}

/// The printable ASCII characters: the space, and all from `!` to `~`.
pub open spec fn is_printable_ascii(c: char) -> bool {
    ' ' <= c <= '~'
}

/// Whether every character of the text is printable ASCII.
pub open spec fn all_printable(text: Seq<char>) -> bool {
    forall|i: int| 0 <= i < text.len() ==> is_printable_ascii(#[trigger] text[i])
}

/// What keeps a text from being a key, if anything does. The checks are made
/// in this order, and the first that fails decides.
pub open spec fn key_defect(text: Seq<char>) -> Option<InvalidKey> {
    if text.len() == 0 {
        Some(InvalidKey::Empty)
    } else if text.len() >= MAX_KEY_LENGTH {
        Some(InvalidKey::TooLong)
    } else if !all_printable(text) {
        Some(InvalidKey::NotPrintable)
    } else {
        None
    }
}

fn printable(text: &str) -> (yes: bool)
    ensures
        yes == all_printable(text@),
{
    broadcast use vstd::string::group_string_axioms;

    let mut yes = true;
    for c in it: text.chars()
        invariant
            it.seq() == text@,
            yes == all_printable(text@.take(it.index() as int)),
    {
        let ghost at = it.index() as int;
        let ghost before = text@.take(at);
        let ghost after = text@.take(at + 1);
        if ' ' <= c && c <= '~' {
            assert(all_printable(before) ==> all_printable(after)) by {
                if all_printable(before) {
                    assert forall|i: int| 0 <= i < after.len() implies is_printable_ascii(
                        #[trigger] after[i],
                    ) by {
                        if i < at {
                            assert(is_printable_ascii(before[i]));
                        }
                    }
                }
            }
            assert(all_printable(after) ==> all_printable(before)) by {
                if all_printable(after) {
                    assert forall|i: int| 0 <= i < before.len() implies is_printable_ascii(
                        #[trigger] before[i],
                    ) by {
                        assert(is_printable_ascii(after[i]));
                    }
                }
            }
        } else {
            yes = false;
            assert(!is_printable_ascii(after[at]));
        }
    }
    assert(text@.take(text@.len() as int) =~= text@);
    yes
}

/// A validated idempotency key: printable ASCII, not empty, and shorter
/// than `MAX_KEY_LENGTH`.
#[derive(Debug)]
pub struct IdempotencyKey(String);

impl View for IdempotencyKey {
    type V = Seq<char>;

    closed spec fn view(&self) -> Seq<char> {
        self.0@
    }
}

impl InvalidKey {
    /// The reason in words.
    pub open spec fn message_view(self) -> Seq<char> {
        match self {
            InvalidKey::Empty => "The idempotency key cannot be empty"@,
            InvalidKey::TooLong => "The idempotency key must be shorter than 50 characters"@,
            InvalidKey::NotPrintable => "The idempotency key must be printable ASCII"@,
        }
    }

    /// The reason in words, as the client is told it.
    pub fn message(&self) -> (text: String)
        ensures
            text@ == self.message_view(),
    {
        match self {
            InvalidKey::Empty => String::from_str("The idempotency key cannot be empty"),
            InvalidKey::TooLong => String::from_str(
                "The idempotency key must be shorter than 50 characters",
            ),
            InvalidKey::NotPrintable => String::from_str(
                "The idempotency key must be printable ASCII",
            ),
        }
    }
}

impl IdempotencyKey {
    #[verifier::type_invariant]
    spec fn well_formed(self) -> bool {
        key_defect(self.0@) is None
    }

    /// Accepts `s` as a key, or says why it is refused.
    pub fn parse(s: String) -> (parsed: Result<Self, InvalidKey>)
        ensures
            match parsed {
                Ok(key) => key_defect(s@) is None && key@ == s@,
                Err(reason) => key_defect(s@) == Some(reason),
            },
    {
        let length: usize = s.as_str().unicode_len();
        if length == 0 {
            Err(InvalidKey::Empty)
        } else if length >= MAX_KEY_LENGTH {
            Err(InvalidKey::TooLong)
        } else if !printable(s.as_str()) {
            Err(InvalidKey::NotPrintable)
        } else {
            Ok(IdempotencyKey(s))
        }
    }

    /// Whether the two keys are the same text.
    pub fn same_as(&self, other: &IdempotencyKey) -> (same: bool)
        ensures
            same == (self@ == other@),
    {
        self.0 == other.0
    }

    /// The key as text.
    pub fn as_ref(&self) -> (text: &str)
        ensures
            text@ == self@,
            key_defect(text@) is None,
    {
        proof {
            use_type_invariant(self);
        }
        self.0.as_str()
    }

    /// Gives the key up as a plain string.
    pub fn into_string(self) -> (text: String)
        ensures
            text@ == self@,
            key_defect(text@) is None,
    {
        proof {
            use_type_invariant(&self);
        }
        self.0
    }
}

impl Clone for IdempotencyKey {
    fn clone(&self) -> (copy: Self)
        ensures
            copy@ == self@,
    {
        proof {
            use_type_invariant(self);
        }
        IdempotencyKey(self.0.clone())
    }
}

} // verus!
