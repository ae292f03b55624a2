//! Who is asking: credentials and how they are checked.

use crate::domain::UserId;
use crate::idempotency::http_headers::string_from_utf8;
use crate::idempotency::SavedResponse;
use crate::utils::{redirect_view, see_other};
use argon2::password_hash::SaltString;
use argon2::{Argon2, PasswordHash, PasswordHasher, PasswordVerifier};
use base64::Engine;
use vstd::prelude::*;
use vstd::slice::slice_subrange;
use vstd::string::{StrSliceExecFns, StringExecFns};
use vstd::utf8::{decode_utf8, valid_utf8};

verus! {

/// Why credentials are not accepted.
#[derive(Debug, PartialEq, Eq)]
pub enum AuthError {
    /// The credentials are wrong; the text says what is wrong with them.
    InvalidCredentials(String),
    /// The credentials could not be checked; the text says why.
    UnexpectedError(String),
}

/// A name and the password that is claimed to go with it.
#[derive(Debug)]
pub struct Credentials {
    pub username: String,
    pub password: String,
}

/// Whether a text is a password hash in the PHC string format, as the
/// `argon2` crate parses one.
pub uninterp spec fn is_phc_hash(text: Seq<char>) -> bool;

/// Whether the password is the one that the hash was made from, as Argon2
/// verifies it with its default settings.
pub uninterp spec fn password_matches(expected_hash: Seq<char>, candidate: Seq<u8>) -> bool;

/// What decoding a text from base64 gives, with the standard alphabet and
/// padding: the bytes, or nothing where the text is no such encoding.
pub uninterp spec fn base64_decoded(encoded: Seq<u8>) -> Option<Seq<u8>>;

/// `PasswordHash::new` of the `argon2` crate: whether it accepts the text
/// depends on the text alone and is what `is_phc_hash` names.
#[verifier::external_body]
fn parses_as_hash(text: &str) -> (accepted: bool)
    ensures
        accepted == is_phc_hash(text@),
{
    PasswordHash::new(text).is_ok()
}

/// `Argon2::verify_password` of the `argon2` crate, for a hash that
/// `PasswordHash::new` accepts: the verdict depends on the hash and the
/// candidate alone and is what `password_matches` names.
#[verifier::external_body]
fn verify_password(expected_hash: &str, candidate: &[u8]) -> (verified: bool)
    requires
        is_phc_hash(expected_hash@),
    ensures
        verified == password_matches(expected_hash@, candidate@),
{
    match PasswordHash::new(expected_hash) {
        Ok(hash) => Argon2::default().verify_password(candidate, &hash).is_ok(),
        Err(_) => false,
    }
}

/// `SaltString::generate` and `Argon2::hash_password` of the `argon2` crate:
/// the password is hashed with a fresh random salt and written out as a PHC
/// string. The salt is random, and so is the hash; what holds of every hash
/// that is made is what the crate's documentation shows of one: it is a
/// string that `PasswordHash::new` accepts, and `Argon2::verify_password`
/// accepts the password against it.
#[verifier::external_body]
fn hash_password(password: &[u8]) -> (hashed: Option<String>)
    ensures
        hashed matches Some(hash) ==> is_phc_hash(hash@) && password_matches(hash@, password@),
{
    let salt = SaltString::generate(&mut rand::thread_rng());
    match Argon2::default().hash_password(password, salt.as_salt()) {
        Ok(hash) => Some(hash.to_string()),
        Err(_) => None,
    }
}

/// `Engine::decode` of the `base64` crate, with the engine
/// `BASE64_STANDARD`: the outcome depends on the text alone and is what
/// `base64_decoded` names.
#[verifier::external_body]
fn decode_base64(encoded: &[u8]) -> (decoded: Option<Vec<u8>>)
    ensures
        match decoded {
            Some(bytes) => base64_decoded(encoded@) == Some(bytes@),
            None => base64_decoded(encoded@) is None,
        },
{
    base64::prelude::BASE64_STANDARD.decode(encoded).ok()
}

/// What is said of a name that nobody has.
pub open spec fn unknown_username() -> Seq<char> {
    "Unknow username"@
}

/// The outcome of checking a password for a user whose stored identifier
/// and hash are these, or for whom nothing is stored: the user's
/// identifier, or whether the credentials are at fault and a word of why.
pub open spec fn credentials_verdict(stored: Option<(u128, Seq<char>)>, password: Seq<char>) -> Result<
    u128,
    (bool, Seq<char>),
> {
    match stored {
        None => Err((true, unknown_username())),
        Some((user_id, expected_hash)) => if !is_phc_hash(expected_hash) {
            Err((false, "Failed to parse hash in PHC string format"@))
        } else if !password_matches(expected_hash, vstd::utf8::encode_utf8(password)) {
            Err((true, "Invalid password"@))
        } else {
            Ok(user_id)
        },
    }
}

/// The mathematical form of an [`AuthError`]: whether the credentials are
/// at fault, and the text.
pub open spec fn auth_error_view(error: AuthError) -> (bool, Seq<char>) {
    match error {
        AuthError::InvalidCredentials(message) => (true, message@),
        AuthError::UnexpectedError(message) => (false, message@),
    }
}

/// Checks credentials against what is stored for their user name: the
/// user's identifier and the hash of the user's password, or nothing where
/// the name is unknown. The user's identifier comes back where the password
/// is the one that was hashed.
pub fn validate_credentials(stored: Option<(UserId, String)>, credentials: &Credentials) -> (checked:
    Result<UserId, AuthError>)
    ensures
        match checked {
            Ok(user_id) => credentials_verdict(stored_view(stored), credentials.password@) == Ok::<
                u128,
                (bool, Seq<char>),
            >(user_id@),
            Err(error) => credentials_verdict(stored_view(stored), credentials.password@) == Err::<
                u128,
                (bool, Seq<char>),
            >(auth_error_view(error)),
        },
{
    let (user_id, expected_password_hash) = match stored {
        Some(found) => found,
        None => {
            return Err(AuthError::InvalidCredentials(String::from_str("Unknow username")));
        },
    };
    if !parses_as_hash(expected_password_hash.as_str()) {
        return Err(
            AuthError::UnexpectedError(String::from_str("Failed to parse hash in PHC string format")),
        );
    }
    if !verify_password(expected_password_hash.as_str(), credentials.password.as_str().as_bytes()) {
        return Err(AuthError::InvalidCredentials(String::from_str("Invalid password")));
    }
    Ok(user_id)
}

/// The mathematical form of what is stored for a user.
pub open spec fn stored_view(stored: Option<(UserId, String)>) -> Option<(u128, Seq<char>)> {
    match stored {
        Some((user_id, hash)) => Some((user_id@, hash@)),
        None => None,
    }
}

/// Hashes a password for storing, with a fresh random salt. The hash that
/// comes back is one against which the same password is accepted: whoever
/// is stored with it passes [`validate_credentials`] with this password.
/// Where the hashing fails, the error says so.
pub fn compute_password_hash(password: &str) -> (hashed: Result<String, AuthError>)
    ensures
        match hashed {
            Ok(hash) => {
                &&& is_phc_hash(hash@)
                &&& password_matches(hash@, vstd::utf8::encode_utf8(password@))
                &&& forall|user_id: u128|
                    #[trigger] credentials_verdict(Some((user_id, hash@)), password@) == Ok::<
                        u128,
                        (bool, Seq<char>),
                    >(user_id)
            },
            Err(error) => auth_error_view(error) == (false, "Failed to hash password"@),
        },
{
    match hash_password(password.as_bytes()) {
        Some(hash) => Ok(hash),
        None => Err(AuthError::UnexpectedError(String::from_str("Failed to hash password"))),
    }
}

/// Lets a request through where its session names a user, and sends
/// everybody else to the login form with a word of why.
pub fn reject_anonymous_user(user_id: Option<UserId>) -> (let_through: Result<
    UserId,
    (String, SavedResponse),
>)
    ensures
        match user_id {
            Some(id) => let_through matches Ok(found) && found == id,
            None => let_through matches Err(sent) && sent.0@ == "The user has not logged in."@
                && sent.1@ == redirect_view("/login"@),
        },
{
    match user_id {
        Some(id) => Ok(id),
        None => Err((String::from_str("The user has not logged in."), see_other("/login"))),
    }
}

/// Why a new password is refused.
#[derive(Debug, Clone, Copy, PartialEq, Eq, Structural)]
pub enum PasswordRejection {
    /// The password was not typed the same way twice.
    Mismatch,
    /// The password has twelve bytes or fewer.
    TooShort,
    /// The password has 128 bytes or more.
    TooLong,
}

/// What keeps a new password from being accepted, if anything does. The
/// two entries are compared first, then the length in bytes is looked at.
pub open spec fn password_defect(new_password: Seq<char>, new_password_check: Seq<char>) -> Option<
    PasswordRejection,
> {
    if new_password != new_password_check {
        Some(PasswordRejection::Mismatch)
    } else if vstd::utf8::encode_utf8(new_password).len() <= 12 {
        Some(PasswordRejection::TooShort)
    } else if vstd::utf8::encode_utf8(new_password).len() >= 128 {
        Some(PasswordRejection::TooLong)
    } else {
        None
    }
}

/// Decides whether a new password can be taken: it must have been entered
/// twice the same, and be longer than 12 and shorter than 128 bytes.
pub fn check_new_password(new_password: &String, new_password_check: &String) -> (checked: Result<
    (),
    PasswordRejection,
>)
    ensures
        match checked {
            Ok(()) => password_defect(new_password@, new_password_check@) is None,
            Err(reason) => password_defect(new_password@, new_password_check@) == Some(reason),
        },
{
    if *new_password != *new_password_check {
        return Err(PasswordRejection::Mismatch);
    }
    let password_length: usize = new_password.as_str().as_bytes().len();
    if password_length <= 12 {
        return Err(PasswordRejection::TooShort);
    }
    if password_length >= 128 {
        return Err(PasswordRejection::TooLong);
    }
    Ok(())
}

impl PasswordRejection {
    /// The reason in words.
    pub open spec fn message_view(self) -> Seq<char> {
        match self {
            PasswordRejection::Mismatch => "You entered two different new passwords - the field values must match."@,
            PasswordRejection::TooShort => "The new password is too short."@,
            PasswordRejection::TooLong => "The new password is too long."@,
        }
    }

    /// The reason in words, as the user is shown it.
    pub fn message(&self) -> (text: String)
        ensures
            text@ == self.message_view(),
    {
        match self {
            PasswordRejection::Mismatch => String::from_str(
                "You entered two different new passwords - the field values must match.",
            ),
            PasswordRejection::TooShort => String::from_str("The new password is too short."),
            PasswordRejection::TooLong => String::from_str("The new password is too long."),
        }
    }
}

/// Why a request carries no usable `Basic` credentials.
#[derive(Debug, Clone, Copy, PartialEq, Eq, Structural)]
pub enum BasicAuthError {
    /// The request has no `Authorization` header.
    MissingHeader,
    /// The header holds a byte that is neither printable ASCII nor a tab.
    NotText,
    /// The header does not begin with `Basic `.
    WrongScheme,
    /// What follows `Basic ` is not base64.
    NotBase64,
    /// The decoded credentials are not UTF-8.
    NotUtf8,
    /// The decoded credentials hold no colon, and so no password.
    MissingPassword,
}

/// Whether every byte is printable ASCII or a tab.
pub open spec fn is_header_text(value: Seq<u8>) -> bool {
    forall|i: int| 0 <= i < value.len() ==> {
        let b = #[trigger] value[i];
        b >= 32 && b < 127 || b == 9
    }
}

/// The bytes of `Basic `, with which the header begins.
pub open spec fn basic_prefix() -> Seq<u8> {
    seq![66u8, 97u8, 115u8, 105u8, 99u8, 32u8]
}

/// Whether the text has a colon at this place and none before it.
pub open spec fn is_first_colon(text: Seq<char>, at: int) -> bool {
    &&& 0 <= at < text.len()
    &&& text[at] == ':'
    &&& forall|j: int| 0 <= j < at ==> #[trigger] text[j] != ':'
}

/// The credentials that an `Authorization` header carries, or why it
/// carries none: the header reads `Basic `, then the base64 encoding of the
/// user name, a colon and the password. The password may hold colons; the
/// name cannot.
pub open spec fn basic_credentials(header: Option<Seq<u8>>) -> Result<
    (Seq<char>, Seq<char>),
    BasicAuthError,
> {
    match header {
        None => Err(BasicAuthError::MissingHeader),
        Some(value) => if !is_header_text(value) {
            Err(BasicAuthError::NotText)
        } else if !(value.len() >= 6 && value.take(6) == basic_prefix()) {
            Err(BasicAuthError::WrongScheme)
        } else {
            match base64_decoded(value.skip(6)) {
                None => Err(BasicAuthError::NotBase64),
                Some(bytes) => if !valid_utf8(bytes) {
                    Err(BasicAuthError::NotUtf8)
                } else if !decode_utf8(bytes).contains(':') {
                    Err(BasicAuthError::MissingPassword)
                } else {
                    let text = decode_utf8(bytes);
                    let at = choose|at: int| is_first_colon(text, at);
                    Ok((text.take(at), text.skip(at + 1)))
                },
            }
        },
    }
}

fn all_header_text(value: &[u8]) -> (yes: bool)
    ensures
        yes == is_header_text(value@),
{
    let mut i: usize = 0;
    while i < value.len()
        invariant
            i <= value@.len(),
            forall|j: int| 0 <= j < i ==> {
                let b = #[trigger] value@[j];
                b >= 32 && b < 127 || b == 9
            },
        decreases value@.len() - i,
    {
        let b: u8 = value[i];
        if !(b >= 32 && b < 127 || b == 9) {
            return false;
        }
        i += 1;
    }
    true
}

fn has_basic_prefix(value: &[u8]) -> (yes: bool)
    ensures
        yes == (value@.len() >= 6 && value@.take(6) == basic_prefix()),
{
    if value.len() < 6 {
        return false;
    }
    let yes = value[0] == 66 && value[1] == 97 && value[2] == 115 && value[3] == 105 && value[4]
        == 99 && value[5] == 32;
    proof {
        let front = value@.take(6);
        if yes {
            assert(front =~= basic_prefix());
        } else {
            assert(front[0] == value@[0] && front[1] == value@[1] && front[2] == value@[2]
                && front[3] == value@[3] && front[4] == value@[4] && front[5] == value@[5]);
            assert(basic_prefix()[0] == 66 && basic_prefix()[1] == 97 && basic_prefix()[2] == 115
                && basic_prefix()[3] == 105 && basic_prefix()[4] == 99 && basic_prefix()[5] == 32);
        }
    }
    yes
}

fn find_colon(text: &str) -> (found: Option<usize>)
    ensures
        match found {
            Some(at) => is_first_colon(text@, at as int),
            None => !text@.contains(':'),
        },
{
    broadcast use vstd::string::group_string_axioms;

    let length: usize = text.unicode_len();
    let mut i: usize = 0;
    for c in it: text.chars()
        invariant
            it.seq() == text@,
            i == it.index(),
            i <= length,
            length == text@.len(),
            forall|j: int| 0 <= j < i ==> #[trigger] text@[j] != ':',
    {
        if c == ':' {
            return Some(i);
        }
        i += 1;
    }
    proof {
        if text@.contains(':') {
            let j = choose|j: int| 0 <= j < text@.len() && text@[j] == ':';
            assert(text@[j] != ':');
        }
    }
    None
}

/// Reads the credentials from the value of a request's `Authorization`
/// header, where it has one: see [`basic_credentials`].
pub fn basic_authentication(authorization: Option<&[u8]>) -> (read: Result<
    Credentials,
    BasicAuthError,
>)
    ensures
        match read {
            Ok(credentials) => basic_credentials(header_view(authorization)) == Ok::<
                (Seq<char>, Seq<char>),
                BasicAuthError,
            >((credentials.username@, credentials.password@)),
            Err(error) => basic_credentials(header_view(authorization)) == Err::<
                (Seq<char>, Seq<char>),
                BasicAuthError,
            >(error),
        },
{
    let header_value = match authorization {
        Some(value) => value,
        None => {
            return Err(BasicAuthError::MissingHeader);
        },
    };
    if !all_header_text(header_value) {
        return Err(BasicAuthError::NotText);
    }
    if !has_basic_prefix(header_value) {
        return Err(BasicAuthError::WrongScheme);
    }
    let base64encoded_segment = slice_subrange(header_value, 6, header_value.len());
    assert(base64encoded_segment@ =~= header_value@.skip(6));
    let decoded_bytes = match decode_base64(base64encoded_segment) {
        Some(bytes) => bytes,
        None => {
            return Err(BasicAuthError::NotBase64);
        },
    };
    let decoded_credentials = match string_from_utf8(decoded_bytes) {
        Some(text) => text,
        None => {
            return Err(BasicAuthError::NotUtf8);
        },
    };
    let text = decoded_credentials.as_str();
    let at = match find_colon(text) {
        Some(at) => at,
        None => {
            return Err(BasicAuthError::MissingPassword);
        },
    };
    proof {
        let chosen = choose|k: int| is_first_colon(text@, k);
        assert(is_first_colon(text@, at as int));
        assert(text@.contains(':'));
        if chosen < at {
            assert(text@[chosen] != ':');
        } else if at < chosen {
            assert(text@[at as int] != ':');
        }
    }
    let length: usize = text.unicode_len();
    let username = text.substring_char(0, at).to_owned();
    let password = text.substring_char(at + 1, length).to_owned();
    assert(username@ =~= text@.take(at as int));
    assert(password@ =~= text@.skip(at + 1));
    Ok(Credentials { username, password })
}

/// The mathematical form of a header that may be missing.
pub open spec fn header_view(authorization: Option<&[u8]>) -> Option<Seq<u8>> {
    match authorization {
        Some(value) => Some(value@),
        None => None,
    }
}

impl BasicAuthError {
    /// The reason in words.
    pub open spec fn message_view(self) -> Seq<char> {
        match self {
            BasicAuthError::MissingHeader => "The Authorization header is missing"@,
            BasicAuthError::NotText => "The Authorization header is not a valid UTF8 string"@,
            BasicAuthError::WrongScheme => "The Authorization schema is not 'Base64'"@,
            BasicAuthError::NotBase64 => "Failed to base64-decode 'Basic' credentials"@,
            BasicAuthError::NotUtf8 => "The decoded credential is not a valid UTF8"@,
            BasicAuthError::MissingPassword => "A password must be provided in 'Basic' auth"@,
        }
    }

    /// The reason in words.
    pub fn message(&self) -> (text: String)
        ensures
            text@ == self.message_view(),
    {
        match self {
            BasicAuthError::MissingHeader => String::from_str("The Authorization header is missing"),
            BasicAuthError::NotText => String::from_str(
                "The Authorization header is not a valid UTF8 string",
            ),
            BasicAuthError::WrongScheme => String::from_str(
                "The Authorization schema is not 'Base64'",
            ),
            BasicAuthError::NotBase64 => String::from_str(
                "Failed to base64-decode 'Basic' credentials",
            ),
            BasicAuthError::NotUtf8 => String::from_str("The decoded credential is not a valid UTF8"),
            BasicAuthError::MissingPassword => String::from_str(
                "A password must be provided in 'Basic' auth",
            ),
        }
    }
}

} // verus!
