//! A subscriber's name: not blank, at most 256 graphemes, free of the
//! characters that have no place in a name.

use unicode_segmentation::UnicodeSegmentation;
use vstd::prelude::*;
use vstd::string::StringExecFns;

verus! {

/// The number of extended grapheme clusters of a text, as the
/// `unicode-segmentation` crate counts them.
pub uninterp spec fn grapheme_count(text: Seq<char>) -> nat;

/// A text without its leading and trailing white space, as `str::trim`
/// gives it.
pub uninterp spec fn trimmed(text: Seq<char>) -> Seq<char>;

/// `UnicodeSegmentation::graphemes` of the `unicode-segmentation` crate,
/// counted: the count depends on the text alone and is what
/// `grapheme_count` names.
#[verifier::external_body]
fn count_graphemes(text: &str) -> (count: usize)
    ensures
        count == grapheme_count(text@),
{
    UnicodeSegmentation::graphemes(text, true).count()
}

/// `str::trim`: the slice depends on the text alone and is what `trimmed`
/// names.
#[verifier::external_body]
fn trim(text: &str) -> (inner: &str)
    ensures
        inner@ == trimmed(text@),
{
    text.trim()
}

/// The characters that a name may not hold:
/// `/ \ < > " | ? * : ; , ( )`.
pub open spec fn is_forbidden(c: char) -> bool {
    c == '/' || c == '\\' || c == '<' || c == '>' || c == '"' || c == '|' || c == '?' || c == '*'
        || c == ':' || c == ';' || c == ',' || c == '(' || c == ')'
}

/// Whether some character of the text is forbidden.
pub open spec fn has_forbidden(text: Seq<char>) -> bool {
    exists|i: int| 0 <= i < text.len() && is_forbidden(#[trigger] text[i])
}

fn forbidden(c: char) -> (yes: bool)
    ensures
        yes == is_forbidden(c),
{
    c == '/' || c == '\\' || c == '<' || c == '>' || c == '"' || c == '|' || c == '?' || c == '*'
        || c == ':' || c == ';' || c == ',' || c == '(' || c == ')'
}

fn contains_forbidden(text: &str) -> (found: bool)
    ensures
        found == has_forbidden(text@),
{
    broadcast use vstd::string::group_string_axioms;

    let mut found = false;
    for c in it: text.chars()
        invariant
            it.seq() == text@,
            found == has_forbidden(text@.take(it.index() as int)),
    {
        let ghost at = it.index() as int;
        let ghost before = text@.take(at);
        let ghost after = text@.take(at + 1);
        if forbidden(c) {
            found = true;
            assert(is_forbidden(after[at]));
        } else {
            assert forall|i: int| 0 <= i < after.len() && is_forbidden(#[trigger] after[i])
                implies has_forbidden(before) by {
                assert(is_forbidden(before[i]));
            }
            assert(has_forbidden(before) ==> has_forbidden(after)) by {
                if has_forbidden(before) {
                    let i = choose|i: int| 0 <= i < before.len() && is_forbidden(#[trigger] before[i]);
                    assert(is_forbidden(after[i]));
                }
            }
        }
    }
    assert(text@.take(text@.len() as int) =~= text@);
    found
}

/// A name that has passed validation.
#[derive(Debug)]
pub struct SubscriberName(String);

/// What keeps a text from being a name, if anything does. The checks are
/// made in this order, and the first that fails decides.
pub open spec fn name_defect(text: Seq<char>) -> Option<Seq<char>> {
    if trimmed(text).len() == 0 {
        Some("Name is empty."@)
    } else if grapheme_count(text) > 256 {
        Some("Name is too long."@)
    } else if has_forbidden(text) {
        Some("Name contains forbidden characters."@)
    } else {
        None
    }
}

impl View for SubscriberName {
    type V = Seq<char>;

    closed spec fn view(&self) -> Seq<char> {
        self.0@
    }
}

impl SubscriberName {
    #[verifier::type_invariant]
    spec fn well_formed(self) -> bool {
        name_defect(self.0@) is None
    }

    /// Accepts `s` as a name, or says what is wrong with it.
    pub fn parse(s: String) -> (parsed: Result<Self, String>)
        ensures
            match parsed {
                Ok(name) => name_defect(s@) is None && name@ == s@,
                Err(message) => name_defect(s@) == Some(message@),
            },
    {
        let is_empty_or_whitespace = trim(s.as_str()).is_empty();
        let is_too_long = count_graphemes(s.as_str()) > 256;
        let has_forbidden_characters = contains_forbidden(s.as_str());

        if is_empty_or_whitespace {
            Err(String::from_str("Name is empty."))
        } else if is_too_long {
            Err(String::from_str("Name is too long."))
        } else if has_forbidden_characters {
            Err(String::from_str("Name contains forbidden characters."))
        } else {
            Ok(SubscriberName(s))
        }
    }

    /// The same as [`SubscriberName::parse`].
    pub fn try_parse(s: String) -> (parsed: Result<Self, String>)
        ensures
            match parsed {
                Ok(name) => name_defect(s@) is None && name@ == s@,
                Err(message) => name_defect(s@) == Some(message@),
            },
    {
        Self::parse(s)
    }

    /// Gives the name up as a plain string.
    pub fn inner(self) -> (text: String)
        ensures
            text@ == self@,
            name_defect(text@) is None,
    {
        proof {
            use_type_invariant(&self);
        }
        self.0
    }

    /// The name as text.
    pub fn as_ref(&self) -> (text: &str)
        ensures
            text@ == self@,
            name_defect(text@) is None,
    {
        proof {
            use_type_invariant(self);
        }
        self.0.as_str()
    }
}

} // verus!
