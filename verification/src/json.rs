//! The JSON side of the wire and log formats.
//!
//! Parsing and printing of JSON values is `serde_json`'s; this module gives
//! the four calls the library makes a contract, and frames the server's
//! notifications around them.

use vstd::prelude::*;
use vstd::string::StringExecFns;

verus! {

/// `serde_json::Value`, carried through as an opaque JSON document.
#[verifier::external_type_specification]
#[verifier::external_body]
pub struct ExJsonValue(serde_json::Value);

/// `serde_json::Error`, the reason a text is not a JSON document.
#[verifier::external_type_specification]
#[verifier::external_body]
pub struct ExJsonError(serde_json::Error);

/// The document that `serde_json::from_str` reads from a text, if the text
/// is one JSON value with nothing but JSON whitespace around it.
pub uninterp spec fn json_parsed(text: Seq<char>) -> Option<serde_json::Value>;

/// The compact rendering of a document, as `serde_json::Value`'s `Display`
/// impl prints it.
pub uninterp spec fn json_text(value: serde_json::Value) -> Seq<char>;

/// The elements of a document that is a JSON array, in order; `None` for
/// any other kind of document.
pub uninterp spec fn json_elements(value: serde_json::Value) -> Option<Seq<serde_json::Value>>;

/// The JSON string document that holds exactly the given text.
pub uninterp spec fn json_string(text: Seq<char>) -> serde_json::Value;

/// Calls `serde_json::from_str::<serde_json::Value>`. Trusted: the outcome
/// depends on the text alone, so it is the named `json_parsed(text)`.
#[verifier::external_body]
pub(crate) fn parse(text: &str) -> (result: Result<serde_json::Value, serde_json::Error>)
    ensures
        match result {
            Ok(value) => json_parsed(text@) == Some(value),
            Err(_) => json_parsed(text@) is None,
        },
{
    serde_json::from_str::<serde_json::Value>(text)
}

/// Calls `to_string` on a `serde_json::Value`, which prints it compactly
/// through its `Display` impl. Trusted: the text depends on the document
/// alone, so it is the named `json_text(value)`.
#[verifier::external_body]
pub(crate) fn to_text(value: &serde_json::Value) -> (text: String)
    ensures
        text@ == json_text(*value),
{
    value.to_string()
}

/// Calls `serde_json::Value::as_array`. Trusted: it hands out the vector
/// held by an array document and `None` for every other document.
#[verifier::external_body]
pub(crate) fn as_array(value: &serde_json::Value) -> (items: Option<&Vec<serde_json::Value>>)
    ensures
        match items {
            Some(items) => json_elements(*value) == Some(items@),
            None => json_elements(*value) is None,
        },
{
    value.as_array()
}

/// Calls `serde_json::Value::from` on a string slice, which wraps a copy of
/// it in `Value::String`. Trusted: the document depends on the text alone.
#[verifier::external_body]
pub(crate) fn string_value(text: &str) -> (value: serde_json::Value)
    ensures
        value == json_string(text@),
{
    serde_json::Value::from(text)
}

/// How a text appears inside a JSON document: quoted and escaped.
pub open spec fn quoted(text: Seq<char>) -> Seq<char> {
    json_text(json_string(text))
}

/// Renders `text` as a JSON string literal.
pub fn quote(text: &str) -> (literal: String)
    ensures
        literal@ == quoted(text@),
{
    let value = string_value(text);
    to_text(&value)
}

/// `{"notify":<message>}`, the advisory sent to a single client.
pub open spec fn notify_text(message: Seq<char>) -> Seq<char> {
    "{\"notify\":"@ + quoted(message) + "}"@
}

/// `{"canvasId":<id>,"moderated":<flag>}`.
pub open spec fn moderated_text(canvas_id: Seq<char>, is_moderated: bool) -> Seq<char> {
    "{\"canvasId\":"@ + quoted(canvas_id) + ",\"moderated\":"@ + (if is_moderated {
        "true"@
    } else {
        "false"@
    }) + "}"@
}

/// `{"canvasId":<id>,"yourPermission":<code>}`.
pub open spec fn permission_text(canvas_id: Seq<char>, permission: Seq<char>) -> Seq<char> {
    "{\"canvasId\":"@ + quoted(canvas_id) + ",\"yourPermission\":"@ + quoted(permission) + "}"@
}

/// The elements of a JSON array, separated by commas.
pub open spec fn joined(items: Seq<Seq<char>>) -> Seq<char>
    decreases items.len(),
{
    if items.len() == 0 {
        Seq::empty()
    } else if items.len() == 1 {
        items[0]
    } else {
        joined(items.drop_last()) + ","@ + items.last()
    }
}

/// `{"canvasId":<id>,"eventsForCanvas":[<event>,...]}`, each event already
/// rendered as JSON.
pub open spec fn events_text(canvas_id: Seq<char>, events: Seq<Seq<char>>) -> Seq<char> {
    "{\"canvasId\":"@ + quoted(canvas_id) + ",\"eventsForCanvas\":["@ + joined(events) + "]}"@
}

/// The views of a vector of strings.
pub open spec fn texts(strings: Seq<String>) -> Seq<Seq<char>> {
    Seq::new(strings.len(), |i: int| strings[i]@)
}

/// Frames an advisory for one client.
pub fn notify_message(message: &str) -> (text: String)
    ensures
        text@ == notify_text(message@),
{
    let mut text = String::from_str("{\"notify\":");
    let literal = quote(message);
    text.append(literal.as_str());
    text.append("}");
    text
}

/// Frames the announcement of a canvas's moderation flag.
pub fn moderated_message(canvas_id: &str, is_moderated: bool) -> (text: String)
    ensures
        text@ == moderated_text(canvas_id@, is_moderated),
{
    let mut text = String::from_str("{\"canvasId\":");
    let literal = quote(canvas_id);
    text.append(literal.as_str());
    text.append(",\"moderated\":");
    if is_moderated {
        text.append("true");
    } else {
        text.append("false");
    }
    text.append("}");
    text
}

/// Frames the announcement of a user's permission on a canvas.
pub fn permission_message(canvas_id: &str, permission: &str) -> (text: String)
    ensures
        text@ == permission_text(canvas_id@, permission@),
{
    let mut text = String::from_str("{\"canvasId\":");
    let id = quote(canvas_id);
    text.append(id.as_str());
    text.append(",\"yourPermission\":");
    let code = quote(permission);
    text.append(code.as_str());
    text.append("}");
    text
}

/// Frames a replay of events, each given as its JSON text.
pub fn events_message(canvas_id: &str, events: &Vec<String>) -> (text: String)
    ensures
        text@ == events_text(canvas_id@, texts(events@)),
{
    let mut text = String::from_str("{\"canvasId\":");
    let id = quote(canvas_id);
    text.append(id.as_str());
    text.append(",\"eventsForCanvas\":[");
    let ghost head = text@;
    let mut i: usize = 0;
    while i < events.len()
        invariant
            i <= events.len(),
            text@ == head + joined(texts(events@).take(i as int)),
        decreases events.len() - i,
    {
        proof {
            let all = texts(events@);
            assert(all.take(i + 1).drop_last() =~= all.take(i as int));
            assert(all.take(i + 1).last() == events@[i as int]@);
        }
        if i > 0 {
            text.append(",");
        }
        text.append(events[i].as_str());
        i = i + 1;
    }
    assert(texts(events@).take(events.len() as int) =~= texts(events@));
    text.append("]}");
    text
}

} // verus!
