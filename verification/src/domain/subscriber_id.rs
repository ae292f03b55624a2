//! The identifier of a user or subscriber: a UUID held as a 128-bit number.

use vstd::prelude::*;

verus! {

/// The 128-bit number whose big-endian bytes are `bytes`.
pub open spec fn from_be_bytes(bytes: Seq<u8>) -> u128 {
    vstd::bytes::spec_u128_from_le_bytes(bytes.reverse())
}

/// The sixteen bytes of `value`, most significant first.
pub open spec fn to_be_bytes(value: u128) -> Seq<u8> {
    vstd::bytes::spec_u128_to_le_bytes(value).reverse()
}

/// The marks of a random UUID: its version is 4 and its variant is the one
/// of RFC 4122.
pub open spec fn is_random_uuid(value: u128) -> bool {
    (value >> 76) & 0xf == 4 && (value >> 62) & 0x3 == 2
}

/// The text of the UUID with this number, as the `uuid` crate writes it.
pub uninterp spec fn hyphenated(value: u128) -> Seq<char>;

/// Whether the character can stand in the text of a UUID: a digit, a
/// letter from `a` to `f`, or the hyphen.
pub open spec fn is_uuid_char(c: char) -> bool {
    '0' <= c <= '9' || 'a' <= c <= 'f' || c == '-'
}

/// What holds of the text of every UUID: 36 characters, each a lower-case
/// hexadecimal digit or a hyphen.
pub open spec fn is_uuid_text(text: Seq<char>) -> bool {
    &&& text.len() == 36
    &&& forall|i: int| 0 <= i < text.len() ==> is_uuid_char(#[trigger] text[i])
}

/// An opaque identifier, stable for the life of the user it names.
#[derive(Debug, Clone, Copy, PartialEq, Eq, Structural)]
pub struct UserId(pub u128);

impl View for UserId {
    type V = u128;

    open spec fn view(&self) -> u128 {
        self.0
    }
}

/// `Uuid::new_v4` of the `uuid` crate, read as a number. The value is
/// random but for the bits that mark it as a random UUID.
#[verifier::external_body]
pub(crate) fn random_uuid() -> (value: u128)
    ensures
        is_random_uuid(value),
{
    uuid::Uuid::new_v4().as_u128()
}

/// `Uuid`'s `Display` of the `uuid` crate, for the UUID with this number:
/// 32 hexadecimal digits in lower case, in five groups with hyphens between
/// them. The text depends on the number alone and is what `hyphenated`
/// names.
#[verifier::external_body]
pub(crate) fn uuid_text(value: u128) -> (text: String)
    ensures
        text@ == hyphenated(value),
        is_uuid_text(text@),
{
    uuid::Uuid::from_u128(value).to_string()
}

/// `Uuid::from_slice` of the `uuid` crate, read as a number: a slice of any
/// length but sixteen is refused, and sixteen bytes are taken most
/// significant first.
#[verifier::external_body]
fn uuid_from_slice(b: &[u8]) -> (value: Option<u128>)
    ensures
        value is Some <==> b@.len() == 16,
        value matches Some(v) ==> v == from_be_bytes(b@),
{
    match uuid::Uuid::from_slice(b) {
        Ok(id) => Some(id.as_u128()),
        Err(_) => None,
    }
}

/// `Uuid::from_bytes` of the `uuid` crate, read as a number.
#[verifier::external_body]
fn uuid_from_bytes(bytes: [u8; 16]) -> (value: u128)
    ensures
        value == from_be_bytes(bytes@),
{
    uuid::Uuid::from_bytes(bytes).as_u128()
}

/// `Uuid::into_bytes` of the `uuid` crate, for the UUID with this number.
#[verifier::external_body]
fn uuid_into_bytes(value: u128) -> (bytes: [u8; 16])
    ensures
        bytes@ == to_be_bytes(value),
{
    uuid::Uuid::from_u128(value).into_bytes()
}

impl UserId {
    /// A fresh random identifier.
    pub fn new_v4() -> (id: Self)
        ensures
            is_random_uuid(id@),
    {
        UserId(random_uuid())
    }

    /// The identifier as text: 32 hexadecimal digits in five groups.
    pub fn to_text(&self) -> (text: String)
        ensures
            text@ == hyphenated(self@),
            is_uuid_text(text@),
    {
        uuid_text(self.0)
    }

    /// The sixteen bytes of the identifier, most significant first.
    pub fn as_bytes(&self) -> (bytes: [u8; 16])
        ensures
            bytes@ == to_be_bytes(self@),
    {
        uuid_into_bytes(self.0)
    }

    /// Reads an identifier from exactly sixteen bytes.
    pub fn from_slice(b: &[u8]) -> (id: Option<Self>)
        ensures
            id is Some <==> b@.len() == 16,
            id matches Some(found) ==> found@ == from_be_bytes(b@),
    {
        match uuid_from_slice(b) {
            Some(value) => Some(UserId(value)),
            None => None,
        }
    }

    /// The identifier with these sixteen bytes.
    pub fn from_bytes(bytes: [u8; 16]) -> (id: Self)
        ensures
            id@ == from_be_bytes(bytes@),
    {
        UserId(uuid_from_bytes(bytes))
    }
}

} // verus!
