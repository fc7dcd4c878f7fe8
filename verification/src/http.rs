//! HTTP answers and headers as plain values.

use vstd::prelude::*;

use crate::text;

verus! {

/// The text of a status: its number and its reason, as
/// `<axum::http::StatusCode as Display>` writes them.
pub uninterp spec fn status_text(code: u16) -> Seq<char>;

/// `<axum::http::StatusCode as Display>`: the text is a function of the number
/// alone. The number is one that `StatusCode::from_u16` takes.
#[verifier::external_body]
fn display_status(code: u16) -> (r: String)
    requires
        100 <= code <= 999,
    ensures
        r@ == status_text(code),
{
    axum::http::StatusCode::from_u16(code).unwrap().to_string()
}

/// Whether every byte of `b` may stand in a header value: a tab, or anything
/// from the space on but the delete character.
pub open spec fn header_bytes(b: Seq<u8>) -> bool {
    forall|i: int| 0 <= i < b.len() ==> (#[trigger] b[i] == 9 || (b[i] >= 32 && b[i] != 127))
}

/// `axum::http::HeaderValue::from_str`, of which only the verdict is kept: it
/// takes a text exactly when each of its bytes may stand in a header.
#[verifier::external_body]
pub(crate) fn is_header_value(s: &str) -> (r: bool)
    ensures
        r == header_bytes(text::utf8(s@)),
{
    axum::http::HeaderValue::from_str(s).is_ok()
}

/// A status number, with 502 in place of one that is no status.
pub open spec fn valid_status(code: u16) -> u16 {
    if 100 <= code <= 999 {
        code
    } else {
        502
    }
}

/// A status number, with 502 in place of one that is no status.
pub fn status_or_bad_gateway(code: u16) -> (r: u16)
    ensures
        r == valid_status(code),
        100 <= r <= 999,
{
    if 100 <= code && code <= 999 {
        code
    } else {
        502
    }
}

/// The text of a status.
pub fn status_line(code: u16) -> (r: String)
    ensures
        r@ == status_text(valid_status(code)),
{
    display_status(status_or_bad_gateway(code))
}

/// Whether a status speaks of success.
pub fn is_success(status: u16) -> (r: bool)
    ensures
        r == (200 <= status < 300),
{
    200 <= status && status < 300
}

/// What a caching header tells the client.
#[derive(Debug, Clone, Copy, PartialEq, Eq, Structural)]
pub enum Caching {
    /// No caching header.
    Unsaid,
    /// Keep nothing.
    NoStore,
}

/// The type of a body.
#[derive(Debug, Clone, Copy, PartialEq, Eq, Structural)]
pub enum BodyType {
    /// Plain text.
    Text,
    /// JSON.
    JsonText,
}

impl BodyType {
    /// The value of the content type header.
    pub open spec fn text(self) -> Seq<char> {
        match self {
            BodyType::Text => "text/plain; charset=utf-8"@,
            BodyType::JsonText => "application/json; charset=utf-8"@,
        }
    }

    /// The value of the content type header.
    pub fn header(self) -> (r: &'static str)
        ensures
            r@ == self.text(),
    {
        match self {
            BodyType::Text => "text/plain; charset=utf-8",
            BodyType::JsonText => "application/json; charset=utf-8",
        }
    }
}

/// An answer whose body is a text.
#[derive(Debug, PartialEq, Eq)]
pub struct Reply {
    pub status: u16,
    pub body_type: BodyType,
    pub caching: Caching,
    pub body: String,
}

/// An answer, as values.
pub struct ReplyView {
    pub status: u16,
    pub body_type: BodyType,
    pub caching: Caching,
    pub body: Seq<char>,
}

impl View for Reply {
    type V = ReplyView;

    open spec fn view(&self) -> ReplyView {
        ReplyView {
            status: self.status,
            body_type: self.body_type,
            caching: self.caching,
            body: self.body@,
        }
    }
}

// ---- Laws ---------------------------------------------------------------

/// A status is kept where it is one; else it is that of a bad gateway.
pub proof fn law_status_is_kept(code: u16)
    ensures
        100 <= code <= 999 ==> valid_status(code) == code,
        code < 100 || code > 999 ==> valid_status(code) == 502,
        BodyType::Text.text() == "text/plain; charset=utf-8"@,
        BodyType::JsonText.text() == "application/json; charset=utf-8"@,
{
}

} // verus!
