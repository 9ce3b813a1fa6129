//! Replies: status, media type and body of what is sent back.
//!
//! A reply is made of plain values here; turning it into a message on the
//! wire is the caller's business.

use crate::error::Error;
use vstd::prelude::*;

verus! {

/// What is sent back.
#[derive(Debug)]
pub struct ResponseParts {
    /// The HTTP status.
    pub status: u16,
    /// The media type of the body.
    pub content_type: String,
    pub body: String,
}

/// The JSON text of a string: `serde_json`'s rendering of the string as a
/// JSON value, quoted and escaped.
pub uninterp spec fn json_string_of(text: Seq<char>) -> Seq<char>;

/// The JSON text of `object` with the member `key` set to the value that
/// the JSON text `member` stands for: `serde_json`'s compact rendering of
/// the changed object. `None` where `object` is not the text of a JSON
/// object or `member` is not JSON.
pub uninterp spec fn json_inserted(object: Seq<char>, key: Seq<char>, member: Seq<char>) -> Option<
    Seq<char>,
>;

/// `serde_json::Value::from` on a string slice, then the value's `Display`.
/// The contract claims only that the text depends on the string alone.
#[verifier::external_body]
fn json_string(text: &str) -> (r: String)
    ensures
        r@ == json_string_of(text@),
{
    serde_json::Value::from(text).to_string()
}

/// `serde_json::Map::insert` on the object that `serde_json::from_str`
/// reads out of `object`, with the value that it reads out of `member`; the
/// result is the object's `Display`. The contract claims only that the
/// outcome depends on the three texts alone.
#[verifier::external_body]
fn json_insert(object: &str, key: &str, member: &str) -> (r: Option<String>)
    ensures
        r matches Some(text) ==> json_inserted(object@, key@, member@) == Some(text@),
        r is None ==> json_inserted(object@, key@, member@) is None,
{
    let mut value: serde_json::Value = serde_json::from_str(object).ok()?;
    let member: serde_json::Value = serde_json::from_str(member).ok()?;
    value.as_object_mut()?.insert(key.to_owned(), member);
    Some(value.to_string())
}

/// The JSON text `true` or `false`.
pub open spec fn json_flag(flag: bool) -> Seq<char> {
    if flag {
        "true"@
    } else {
        "false"@
    }
}

/// The JSON object that reports an error: its text under `error`.
pub open spec fn json_error(e: Error) -> Option<Seq<char>> {
    json_inserted("{}"@, "error"@, json_string_of(e.text()))
}

/// The body of a JSON reply: the payload, or the error's object, with the
/// member `success` added. `None` where the payload is not a JSON object.
pub open spec fn json_body(res: Result<Seq<char>, Error>) -> Option<Seq<char>> {
    match res {
        Ok(payload) => json_inserted(payload, "success"@, json_flag(true)),
        Err(e) => match json_error(e) {
            Some(object) => json_inserted(object, "success"@, json_flag(false)),
            None => None,
        },
    }
}

/// The status of a reply: the given one on success, the error's own
/// otherwise.
pub open spec fn status_of<T>(code: u16, res: Result<T, Error>) -> u16 {
    match res {
        Ok(_) => code,
        Err(e) => e.status(),
    }
}

/// A reply made of the three parts.
pub fn build_response(code: u16, content_type: &str, body: String) -> (r: ResponseParts)
    ensures
        r.status == code,
        r.content_type@ == content_type@,
        r.body@ == body@,
{
    ResponseParts { status: code, content_type: content_type.to_owned(), body }
}

/// A reply in plain text that reports an error: the error's status and
/// text.
pub fn error_text_response(err: Error) -> (r: ResponseParts)
    ensures
        r.status == err.status(),
        r.content_type@ == "text/plain"@,
        r.body@ == err.text(),
{
    build_response(err.status_code(), "text/plain", err.message())
}

/// A reply in plain text: the text under the given status, or the error
/// under its own.
pub fn text_response(code: u16, res: Result<String, Error>) -> (r: ResponseParts)
    ensures
        r.status == status_of(code, res),
        r.content_type@ == "text/plain"@,
        r.body@ == match res {
            Ok(text) => text@,
            Err(e) => e.text(),
        },
{
    match res {
        Ok(data) => build_response(code, "text/plain", data),
        Err(err) => error_text_response(err),
    }
}

/// A reply in JSON. On success the payload, which is the text of a JSON
/// object, is sent under the given status with `"success": true` added. An
/// error is sent under its own status as an object with its text and
/// `"success": false`. There is no reply where the payload is not a JSON
/// object.
pub fn json_response(code: u16, res: Result<String, Error>) -> (r: Option<ResponseParts>)
    ensures
        match r {
            Some(parts) => {
                &&& parts.status == status_of(code, res)
                &&& parts.content_type@ == "application/json"@
                &&& json_body(
                    match res {
                        Ok(payload) => Ok(payload@),
                        Err(e) => Err(e),
                    },
                ) == Some(parts.body@)
            },
            None => json_body(
                match res {
                    Ok(payload) => Ok(payload@),
                    Err(e) => Err(e),
                },
            ) is None,
        },
{
    let (status, body) = match &res {
        Ok(payload) => (code, json_insert(payload.as_str(), "success", "true")),
        Err(err) => {
            let text = json_string(err.message().as_str());
            match json_insert("{}", "error", text.as_str()) {
                Some(object) => (err.status_code(), json_insert(object.as_str(), "success", "false")),
                None => (err.status_code(), None),
            }
        },
    };
    match body {
        Some(body) => Some(build_response(status, "application/json", body)),
        None => None,
    }
}

} // verus!
