//! The outcome of a request as it is kept for replay: status, headers, body.

use super::http_headers::{
    decode_headers, encode_headers, lemma_decode_of_encode, DecodeError,
    HeaderPairRecord, Headers, PairView,
};
use super::key::{all_printable, is_printable_ascii};
use vstd::prelude::*;

verus! {

/// The mathematical form of a saved response.
pub struct ResponseView {
    pub status: u16,
    pub headers: Seq<PairView>,
    pub body: Seq<u8>,
}

/// The status codes that a response can carry: 100 to 999.
pub open spec fn status_is_valid(code: u16) -> bool {
    100 <= code <= 999
}

/// Whether a text can be the name of a header, as the `http` crate decides
/// it when it parses one.
pub uninterp spec fn header_name_is_valid(name: Seq<char>) -> bool;

/// The bytes that a header value can hold: the tab, and all from 32 on but
/// 127.
pub open spec fn is_value_byte(b: u8) -> bool {
    b >= 32 && b != 127 || b == 9
}

/// Whether every byte can stand in a header value.
pub open spec fn header_value_is_valid(value: Seq<u8>) -> bool {
    forall|i: int| 0 <= i < value.len() ==> is_value_byte(#[trigger] value[i])
}

/// Whether the header can stand in a response.
pub open spec fn pair_is_valid(pair: PairView) -> bool {
    header_name_is_valid(pair.0) && header_value_is_valid(pair.1)
}

/// Whether every header of the list can stand in a response.
pub open spec fn headers_are_valid(headers: Seq<PairView>) -> bool {
    forall|i: int| 0 <= i < headers.len() ==> pair_is_valid(#[trigger] headers[i])
}

/// Why stored values cannot be replayed as a response.
#[derive(Debug, Clone, Copy, PartialEq, Eq)]
pub enum ReplayError {
    /// The status code is not one from 100 to 999.
    InvalidStatusCode,
    /// The stored headers cannot be read.
    Headers(DecodeError),
    /// A header has a name or a value that no response can carry.
    InvalidHeader,
}

/// What keeps a status and a header list from being a response, if anything
/// does. The status is looked at first.
pub open spec fn response_defect(status: u16, headers: Seq<PairView>) -> Option<ReplayError> {
    if !status_is_valid(status) {
        Some(ReplayError::InvalidStatusCode)
    } else if !headers_are_valid(headers) {
        Some(ReplayError::InvalidHeader)
    } else {
        None
    }
}

/// The response that a stored row stands for, or why it stands for none. A
/// negative status code is no status code.
pub open spec fn response_of_row(status_code: i16, header_bytes: Seq<u8>, body: Seq<u8>) -> Result<
    ResponseView,
    ReplayError,
> {
    if status_code < 0 || !status_is_valid(status_code as u16) {
        Err(ReplayError::InvalidStatusCode)
    } else {
        match decode_headers(header_bytes) {
            Err(e) => Err(ReplayError::Headers(e)),
            Ok(headers) => if headers_are_valid(headers) {
                Ok(ResponseView { status: status_code as u16, headers, body })
            } else {
                Err(ReplayError::InvalidHeader)
            },
        }
    }
}

/// `StatusCode::from_u16` of the `http` crate, as `hyper` hands it on: it
/// accepts the codes from 100 to 999 and no others.
#[verifier::external_body]
fn check_status(code: u16) -> (valid: bool)
    ensures
        valid == status_is_valid(code),
{
    hyper::StatusCode::from_u16(code).is_ok()
}

/// `HeaderName::from_bytes` of the `http` crate: whether it accepts the name
/// depends on the name alone and is what `header_name_is_valid` names.
#[verifier::external_body]
fn check_header_name(name: &str) -> (valid: bool)
    ensures
        valid == header_name_is_valid(name@),
{
    hyper::header::HeaderName::from_bytes(name.as_bytes()).is_ok()
}

/// `HeaderValue::from_bytes` of the `http` crate: it accepts a value where
/// each byte is the tab or is 32 or more and not 127.
#[verifier::external_body]
fn check_header_value(value: &[u8]) -> (valid: bool)
    ensures
        valid == header_value_is_valid(value@),
{
    hyper::header::HeaderValue::from_bytes(value).is_ok()
}

/// The constant `LOCATION` of the `http` crate: the name `location`, which
/// is a valid header name.
#[verifier::external_body]
fn location_name() -> (name: String)
    ensures
        name@ == "location"@,
        header_name_is_valid(name@),
{
    hyper::header::LOCATION.as_str().to_string()
}

/// The constant `CONTENT_TYPE` of the `http` crate: the name
/// `content-type`, which is a valid header name.
#[verifier::external_body]
fn content_type_name() -> (name: String)
    ensures
        name@ == "content-type"@,
        header_name_is_valid(name@),
{
    hyper::header::CONTENT_TYPE.as_str().to_string()
}

fn check_headers(headers: &Headers) -> (valid: bool)
    ensures
        valid == headers_are_valid(headers@),
{
    let mut i: usize = 0;
    while i < headers.0.len()
        invariant
            i <= headers.0@.len(),
            forall|j: int| 0 <= j < i ==> pair_is_valid(#[trigger] headers@[j]),
        decreases headers.0@.len() - i,
    {
        let pair = &headers.0[i];
        if !check_header_name(pair.key.as_str()) || !check_header_value(pair.value.as_slice()) {
            assert(!pair_is_valid(headers@[i as int]));
            return false;
        }
        i += 1;
    }
    true
}

/// A response as the ledger keeps it. Its status is one that a response
/// can carry and so is each of its headers.
#[derive(Debug, PartialEq, Eq)]
pub struct SavedResponse {
    status: u16,
    headers: Headers,
    body: Vec<u8>,
}

impl View for SavedResponse {
    type V = ResponseView;

    closed spec fn view(&self) -> ResponseView {
        ResponseView { status: self.status, headers: self.headers@, body: self.body@ }
    }
}

impl SavedResponse {
    #[verifier::type_invariant]
    spec fn well_formed(self) -> bool {
        response_defect(self.status, self.headers@) is None
    }

    /// Puts a response together, or says what keeps the parts from being
    /// one.
    pub fn new(status: u16, headers: Headers, body: Vec<u8>) -> (made: Result<Self, ReplayError>)
        ensures
            match made {
                Ok(response) => response_defect(status, headers@) is None && response@
                    == (ResponseView { status, headers: headers@, body: body@ }),
                Err(reason) => response_defect(status, headers@) == Some(reason),
            },
    {
        if !check_status(status) {
            Err(ReplayError::InvalidStatusCode)
        } else if !check_headers(&headers) {
            Err(ReplayError::InvalidHeader)
        } else {
            Ok(SavedResponse { status, headers, body })
        }
    }

    /// The redirect that tells a client where to look next: status 303, a
    /// `location` header with the target, and no body. `None` where the
    /// target holds a byte that no header value can hold.
    pub fn see_other(location: &str) -> (made: Option<Self>)
        ensures
            made is Some <==> header_value_is_valid(vstd::utf8::encode_utf8(location@)),
            made matches Some(response) ==> response@ == see_other_view(location@),
    {
        let value = location.as_bytes();
        if !check_header_value(value) {
            return None;
        }
        let mut list: Vec<HeaderPairRecord> = Vec::new();
        list.push(HeaderPairRecord { key: location_name(), value: vstd::slice::slice_to_vec(value) });
        let headers = Headers(list);
        assert(headers@ =~= see_other_view(location@).headers);
        Some(SavedResponse { status: 303, headers, body: Vec::new() })
    }

    /// A response of nothing but a status. `None` where the status is none
    /// that a response can carry.
    pub fn status_only(status: u16) -> (made: Option<Self>)
        ensures
            made is Some <==> status_is_valid(status),
            made matches Some(response) ==> response@ == status_view(status),
    {
        if !check_status(status) {
            return None;
        }
        let headers = Headers(Vec::new());
        assert(headers@ =~= Seq::<PairView>::empty());
        Some(SavedResponse { status, headers, body: Vec::new() })
    }

    /// A response that says something in plain text: the status, a
    /// `content-type` header for UTF-8 text, and the message as the body.
    /// `None` where the status is none that a response can carry.
    pub fn text(status: u16, message: &str) -> (made: Option<Self>)
        ensures
            made is Some <==> status_is_valid(status),
            made matches Some(response) ==> response@ == text_view(status, message@),
    {
        if !check_status(status) {
            return None;
        }
        let kind = "text/plain; charset=utf-8";
        proof {
            lemma_plain_text_kind();
        }
        let value = kind.as_bytes();
        let mut list: Vec<HeaderPairRecord> = Vec::new();
        list.push(
            HeaderPairRecord { key: content_type_name(), value: vstd::slice::slice_to_vec(value) },
        );
        let headers = Headers(list);
        assert(headers@ =~= text_view(status, message@).headers);
        Some(SavedResponse { status, headers, body: vstd::slice::slice_to_vec(message.as_bytes()) })
    }

    /// The status code.
    pub fn status(&self) -> (code: u16)
        ensures
            code == self@.status,
            status_is_valid(code),
    {
        proof {
            use_type_invariant(self);
        }
        self.status
    }

    /// The headers, in order.
    pub fn headers(&self) -> (headers: &Headers)
        ensures
            headers@ == self@.headers,
            headers_are_valid(headers@),
    {
        proof {
            use_type_invariant(self);
        }
        &self.headers
    }

    /// The body.
    pub fn body(&self) -> (body: &Vec<u8>)
        ensures
            body@ == self@.body,
    {
        &self.body
    }

    /// The three values that are written to the ledger's row: the status
    /// code, the encoded headers and the body.
    pub fn to_row(&self) -> (row: (i16, Vec<u8>, Vec<u8>))
        ensures
            row.0 == self@.status,
            row.1@ == encode_headers(self@.headers),
            row.2@ == self@.body,
            response_of_row(row.0, row.1@, row.2@) == Ok::<ResponseView, ReplayError>(self@),
    {
        proof {
            use_type_invariant(self);
        }
        let header_bytes = self.headers.to_bytes();
        proof {
            lemma_decode_of_encode(self@.headers, Seq::empty());
            assert(encode_headers(self@.headers) + Seq::<u8>::empty() =~= encode_headers(
                self@.headers,
            ));
        }
        (self.status as i16, header_bytes, self.body.clone())
    }

    /// Reads a response back from the three values of a ledger row.
    pub fn from_row(status_code: i16, header_bytes: &[u8], body: Vec<u8>) -> (read: Result<
        Self,
        ReplayError,
    >)
        ensures
            match read {
                Ok(response) => response_of_row(status_code, header_bytes@, body@) == Ok::<
                    ResponseView,
                    ReplayError,
                >(response@),
                Err(reason) => response_of_row(status_code, header_bytes@, body@) == Err::<
                    ResponseView,
                    ReplayError,
                >(reason),
            },
    {
        if status_code < 0 {
            return Err(ReplayError::InvalidStatusCode);
        }
        let status: u16 = status_code as u16;
        if !check_status(status) {
            return Err(ReplayError::InvalidStatusCode);
        }
        let headers = match Headers::try_from_bytes(header_bytes) {
            Ok(headers) => headers,
            Err(e) => { return Err(ReplayError::Headers(e)); },
        };
        if !check_headers(&headers) {
            return Err(ReplayError::InvalidHeader);
        }
        Ok(SavedResponse { status, headers, body })
    }
}

impl Clone for SavedResponse {
    fn clone(&self) -> (copy: Self)
        ensures
            copy@ == self@,
    {
        proof {
            use_type_invariant(self);
        }
        SavedResponse {
            status: self.status,
            headers: self.headers.clone(),
            body: self.body.clone(),
        }
    }
}

/// The mathematical form of the redirect to `location`.
pub open spec fn see_other_view(location: Seq<char>) -> ResponseView {
    ResponseView {
        status: 303,
        headers: seq![("location"@, vstd::utf8::encode_utf8(location))],
        body: Seq::empty(),
    }
}

/// The mathematical form of the response of nothing but this status.
pub open spec fn status_view(status: u16) -> ResponseView {
    ResponseView { status, headers: Seq::empty(), body: Seq::empty() }
}

/// The mathematical form of the plain-text response with this status and
/// message.
pub open spec fn text_view(status: u16, message: Seq<char>) -> ResponseView {
    ResponseView {
        status,
        headers: seq![
            ("content-type"@, vstd::utf8::encode_utf8("text/plain; charset=utf-8"@)),
        ],
        body: vstd::utf8::encode_utf8(message),
    }
}

/// The UTF-8 form of a text of printable ASCII characters can be a header
/// value.
pub proof fn lemma_printable_is_header_text(text: Seq<char>)
    requires
        all_printable(text),
    ensures
        header_value_is_valid(vstd::utf8::encode_utf8(text)),
{
    assert(vstd::utf8::is_ascii_chars(text)) by {
        assert forall|i: int| 0 <= i < text.len() implies '\0' <= #[trigger] text[i] <= '\u{7f}' by {
            assert(is_printable_ascii(text[i]));
        }
    }
    vstd::utf8::is_ascii_chars_encode_utf8(text);
    assert forall|i: int| 0 <= i < vstd::utf8::encode_utf8(text).len() implies is_value_byte(
        #[trigger] vstd::utf8::encode_utf8(text)[i],
    ) by {
        assert(is_printable_ascii(text[i]));
        assert(text[i] as u8 == vstd::utf8::encode_utf8(text)[i]);
    }
}

/// The kind of plain UTF-8 text can be a header value.
pub proof fn lemma_plain_text_kind()
    ensures
        header_value_is_valid(vstd::utf8::encode_utf8("text/plain; charset=utf-8"@)),
{
    reveal_strlit("text/plain; charset=utf-8");
    let text = "text/plain; charset=utf-8"@;
    assert(all_printable(text));
    lemma_printable_is_header_text(text);
}

} // verus!
