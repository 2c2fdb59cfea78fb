//! The trusted boundary to the document codec. Documents cross the
//! transport as text; these two functions are the only places the crate
//! reads or writes that text as structured data, and both are believed, not
//! verified. Each result is a function of the arguments alone, so each gets
//! an uninterpreted name that the callers' contracts are stated over.

use vstd::prelude::*;

use crate::msg::{Message, MessageView};

verus! {

/// The fields that a document's text decodes to: the correlation tag, the
/// owning client handle, the numeric status, the reason string, and the text
/// itself. `None` exactly where the text is not a document.
pub uninterp spec fn decoded_of(s: Seq<char>) -> Option<MessageView>;

/// The text of a document after the correlation tag `id` is attached to it,
/// replacing any tag the body already carried. `None` exactly where the body
/// is not an object document that can carry the tag.
pub uninterp spec fn tagged_of(body: Seq<char>, id: u32) -> Option<Seq<char>>;

/// Relies on serde_json::from_str and serde_json::Value's accessors (get,
/// as_u64, as_i64, as_str): the fields read from a document's text depend on
/// that text alone, and from_str fails exactly on text that is not a
/// document. Reads the "@extra" (correlation tag), "@client_id", "code" and
/// "message" fields; the returned message's body is the text as given.
#[verifier::external_body]
pub(crate) fn decode_message(s: &str) -> (r: Option<Message>)
    ensures
        r matches Some(m) ==> decoded_of(s@) == Some(m@) && m@.body == s@ && (m@.extra is Some
            ==> m@.has_extra),
        r is None ==> decoded_of(s@) is None,
{
    let v: serde_json::Value = match serde_json::from_str(s) {
        Ok(v) => v,
        Err(_) => return None,
    };
    let tag = v.get("@extra");
    Some(Message {
        has_extra: tag.is_some(),
        extra: tag.and_then(|t| t.as_u64()).and_then(|t| u32::try_from(t).ok()),
        client_id: v.get("@client_id").and_then(|c| c.as_i64()),
        code: v.get("code").and_then(|c| c.as_i64()),
        reason: v.get("message").and_then(|m| m.as_str()).map(|m| m.to_string()),
        body: s.to_string(),
    })
}

/// Relies on serde_json::from_str, serde_json::Map::insert and
/// serde_json::Value::to_string: the tagged text depends on the body text
/// and the id alone (object keys serialize in sorted order). Writes the
/// "@extra" (correlation tag) field. Fails exactly where the body is not an
/// object document.
#[verifier::external_body]
pub(crate) fn tag_request(body: &str, id: u32) -> (r: Option<String>)
    ensures
        r matches Some(p) ==> tagged_of(body@, id) == Some(p@),
        r is None ==> tagged_of(body@, id) is None,
{
    let v: serde_json::Value = match serde_json::from_str(body) {
        Ok(v) => v,
        Err(_) => return None,
    };
    match v {
        serde_json::Value::Object(mut fields) => {
            fields.insert("@extra".to_string(), serde_json::Value::from(id));
            Some(serde_json::Value::Object(fields).to_string())
        },
        _ => None,
    }
}

} // verus!
