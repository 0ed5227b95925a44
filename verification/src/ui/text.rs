//! Turning payload bytes into text for display.
//!
//! Decoding and JSON formatting are done by the standard library and by
//! `serde_json`. Their results are given names here, so that the view models
//! can say exactly which text they show.

use vstd::prelude::*;
use vstd::utf8::*;

verus! {

/// `serde_json::Value`, a parsed JSON document. Nothing is known of what is
/// inside: a document is only handed from the parser to the printer.
#[verifier::external_type_specification]
#[verifier::external_body]
pub struct ExJsonValue(serde_json::Value);

/// `serde_json::Error`, the reason why parsing or printing failed. Nothing
/// is known of what is inside, and nothing is read from it.
#[verifier::external_type_specification]
#[verifier::external_body]
pub struct ExJsonError(serde_json::Error);

/// The text that lossy UTF-8 decoding makes of `bytes`.
pub uninterp spec fn utf8_lossy(bytes: Seq<u8>) -> Seq<char>;

/// What a parsed JSON document holds.
pub uninterp spec fn json_content(document: serde_json::Value) -> Seq<char>;

/// The content of the JSON document that `text` parses to, if it is one.
pub uninterp spec fn json_parsed(text: Seq<char>) -> Option<Seq<char>>;

/// The pretty-printed form of a JSON document with the given content, if it
/// can be printed.
pub uninterp spec fn json_pretty(content: Seq<char>) -> Option<Seq<char>>;

/// Calls `String::from_utf8_lossy` and takes ownership of what it returns.
/// The contract names the result, and states what the standard library
/// documents of well-formed input: it is decoded as it stands.
#[verifier::external_body]
pub(crate) fn decode_lossy(bytes: &[u8]) -> (text: String)
    ensures
        text@ == utf8_lossy(bytes@),
        valid_utf8(bytes@) ==> text@ == decode_utf8(bytes@),
{
    String::from_utf8_lossy(bytes).into_owned()
}

/// Calls `serde_json::from_str` to parse `text` into a `serde_json::Value`.
/// The contract names the outcome: the call succeeds exactly when the name
/// holds a content, and then returns a document with that content.
#[verifier::external_body]
fn parse_json(text: &str) -> (parsed: Result<serde_json::Value, serde_json::Error>)
    ensures
        match parsed {
            Ok(document) => json_parsed(text@) == Some(json_content(document)),
            Err(_) => json_parsed(text@) is None,
        },
{
    serde_json::from_str::<serde_json::Value>(text)
}

/// Calls `serde_json::to_string_pretty` on a parsed document. The contract
/// names the outcome, which depends on nothing but what the document holds:
/// the call succeeds exactly when the name holds a text, and then returns
/// that text.
#[verifier::external_body]
fn print_json(document: &serde_json::Value) -> (printed: Result<String, serde_json::Error>)
    ensures
        match printed {
            Ok(text) => json_pretty(json_content(*document)) == Some(text@),
            Err(_) => json_pretty(json_content(*document)) is None,
        },
{
    serde_json::to_string_pretty(document)
}

/// The pretty-printed form of `text`, if `text` is a JSON document that can
/// be printed.
pub open spec fn pretty_text(text: Seq<char>) -> Option<Seq<char>> {
    match json_parsed(text) {
        Some(content) => json_pretty(content),
        None => None,
    }
}

/// The text shown for a payload: the pretty-printed document if the decoded
/// payload is JSON, the decoded payload as it stands otherwise.
pub open spec fn display_text(payload: Seq<u8>) -> Seq<char> {
    let raw = utf8_lossy(payload);
    match pretty_text(raw) {
        Some(pretty) => pretty,
        None => raw,
    }
}

/// Chooses the text to show for a payload from its decoded form and the
/// outcome of formatting it as JSON: the formatted text where there is one,
/// the decoded form otherwise.
pub fn choose_text(raw: String, pretty: Option<String>) -> (shown: String)
    ensures
        shown@ == match pretty {
            Some(text) => text@,
            None => raw@,
        },
{
    match pretty {
        Some(text) => text,
        None => raw,
    }
}

/// Formats `raw` as JSON: parses it and prints the document again, indented.
/// Text that is no JSON document has no such form.
pub fn pretty_json(raw: &str) -> (pretty: Option<String>)
    ensures
        match pretty {
            Some(text) => pretty_text(raw@) == Some(text@),
            None => pretty_text(raw@) is None,
        },
{
    match parse_json(raw) {
        Ok(document) => match print_json(&document) {
            Ok(text) => Some(text),
            Err(_) => None,
        },
        Err(_) => None,
    }
}

/// Decodes a payload and renders it as the text to show for it: the
/// pretty-printed document if the decoded payload is JSON, the decoded
/// payload otherwise. In particular a payload that is UTF-8 and no JSON is
/// shown as it stands.
pub fn render_payload(payload: &[u8]) -> (shown: String)
    ensures
        shown@ == display_text(payload@),
        valid_utf8(payload@) && pretty_text(decode_utf8(payload@)) is None ==> shown@
            == decode_utf8(payload@),
{
    let raw = decode_lossy(payload);
    let pretty = pretty_json(raw.as_str());
    choose_text(raw, pretty)
}

} // verus!
